//! Diagram data for a graphical view: one node per diagrammable symbol,
//! with its containment parent and typing edge.
use vstd::prelude::*;
use crate::analysis::{Analysis, SymbolId, is_live};
use crate::model::{FileId, Symbol, SymbolKind};

verus! {

/// The custom request that asks for diagram data.
pub struct GetDiagramRequest;

impl GetDiagramRequest {
    pub const METHOD: &'static str = "syster/getDiagram";
}

/// Parameters of a diagram request: the file to draw (the whole workspace
/// when absent) and the view to draw it in.
#[derive(Debug)]
pub struct GetDiagramParams {
    pub uri: Option<String>,
    pub view_type: String,
}

/// The view used when a request names none.
pub fn default_view_type() -> (r: String)
    ensures
        r@ == "GeneralView"@,
{
    String::from_str("GeneralView")
}

/// A node of the diagram.
#[derive(Debug)]
pub struct DiagramSymbol {
    pub name: String,
    pub qualified_name: String,
    pub node_type: String,
    pub parent: Option<String>,
    pub features: Option<Vec<String>>,
    pub typed_by: Option<String>,
    pub direction: Option<String>,
}

/// An edge of the diagram.
#[derive(Debug)]
pub struct DiagramRelationship {
    pub rel_type: String,
    pub source: String,
    pub target: String,
}

/// A whole diagram.
#[derive(Debug)]
pub struct DiagramData {
    pub symbols: Vec<DiagramSymbol>,
    pub relationships: Vec<DiagramRelationship>,
    pub view_type: String,
}

pub struct DiagramSymbolView {
    pub name: Seq<char>,
    pub qualified_name: Seq<char>,
    pub node_type: Seq<char>,
    pub parent: Option<Seq<char>>,
    pub typed_by: Option<Seq<char>>,
}

pub struct DiagramRelationshipView {
    pub rel_type: Seq<char>,
    pub source: Seq<char>,
    pub target: Seq<char>,
}

pub open spec fn opt_view(o: Option<String>) -> Option<Seq<char>> {
    match o {
        Some(s) => Some(s@),
        None => None,
    }
}

impl View for DiagramSymbol {
    type V = DiagramSymbolView;

    open spec fn view(&self) -> DiagramSymbolView {
        DiagramSymbolView {
            name: self.name@,
            qualified_name: self.qualified_name@,
            node_type: self.node_type@,
            parent: opt_view(self.parent),
            typed_by: opt_view(self.typed_by),
        }
    }
}

impl View for DiagramRelationship {
    type V = DiagramRelationshipView;

    open spec fn view(&self) -> DiagramRelationshipView {
        DiagramRelationshipView {
            rel_type: self.rel_type@,
            source: self.source@,
            target: self.target@,
        }
    }
}

/// The start of the last `::` among the first `k` characters of `s`.
pub open spec fn last_separator(s: Seq<char>, k: int) -> Option<int>
    decreases k,
{
    if k < 2 || k > s.len() {
        None
    } else if s[k - 2] == ':' && s[k - 1] == ':' {
        Some(k - 2)
    } else {
        last_separator(s, k - 1)
    }
}

/// Everything before the last `::` of a qualified name; nothing for a
/// top-level name.
pub open spec fn parent_of(s: Seq<char>) -> Option<Seq<char>> {
    match last_separator(s, s.len() as int) {
        Some(i) => Some(s.subrange(0, i)),
        None => None,
    }
}

/// The qualified name of the namespace that contains `qualified_name`.
pub fn extract_parent(qualified_name: &str) -> (r: Option<String>)
    ensures
        opt_view(r) == parent_of(qualified_name@),
{
    let n = qualified_name.unicode_len();
    let mut k: usize = n;
    while k >= 2
        invariant
            k <= n,
            n == qualified_name@.len(),
            last_separator(qualified_name@, n as int) == last_separator(qualified_name@, k as int),
        decreases k,
    {
        if qualified_name.get_char(k - 2) == ':' && qualified_name.get_char(k - 1) == ':' {
            let head = qualified_name.substring_char(0, k - 2);
            return Some(String::from_str(head));
        }
        k = k - 1;
    }
    None
}

/// The node type a diagram draws a symbol kind as; kinds that are not
/// drawn have none.
pub open spec fn node_type_of(kind: SymbolKind) -> Option<Seq<char>> {
    match kind {
        SymbolKind::PartDef => Some("PartDef"@),
        SymbolKind::ItemDef => Some("ItemDef"@),
        SymbolKind::ActionDef => Some("ActionDef"@),
        SymbolKind::PortDef => Some("PortDef"@),
        SymbolKind::AttributeDef => Some("AttributeDef"@),
        SymbolKind::ConnectionDef => Some("ConnectionDef"@),
        SymbolKind::InterfaceDef => Some("InterfaceDef"@),
        SymbolKind::AllocationDef => Some("AllocationDef"@),
        SymbolKind::RequirementDef => Some("RequirementDef"@),
        SymbolKind::ConstraintDef => Some("ConstraintDef"@),
        SymbolKind::StateDef => Some("StateDef"@),
        SymbolKind::CalculationDef => Some("CalculationDef"@),
        SymbolKind::UseCaseDef => Some("UseCaseDef"@),
        SymbolKind::AnalysisCaseDef => Some("AnalysisCaseDef"@),
        SymbolKind::ConcernDef => Some("ConcernDef"@),
        SymbolKind::ViewDef => Some("ViewDef"@),
        SymbolKind::ViewpointDef => Some("ViewpointDef"@),
        SymbolKind::RenderingDef => Some("RenderingDef"@),
        SymbolKind::EnumerationDef => Some("EnumerationDef"@),
        SymbolKind::PartUsage => Some("PartUsage"@),
        SymbolKind::ItemUsage => Some("ItemUsage"@),
        SymbolKind::ActionUsage => Some("ActionUsage"@),
        SymbolKind::PortUsage => Some("PortUsage"@),
        SymbolKind::AttributeUsage => Some("AttributeUsage"@),
        SymbolKind::ConnectionUsage => Some("ConnectionUsage"@),
        SymbolKind::InterfaceUsage => Some("InterfaceUsage"@),
        SymbolKind::AllocationUsage => Some("AllocationUsage"@),
        SymbolKind::RequirementUsage => Some("RequirementUsage"@),
        SymbolKind::ConstraintUsage => Some("ConstraintUsage"@),
        SymbolKind::StateUsage => Some("StateUsage"@),
        SymbolKind::CalculationUsage => Some("CalculationUsage"@),
        SymbolKind::ReferenceUsage => Some("ReferenceUsage"@),
        SymbolKind::OccurrenceUsage => Some("OccurrenceUsage"@),
        SymbolKind::FlowUsage => Some("FlowUsage"@),
        SymbolKind::Package => Some("Package"@),
        _ => None,
    }
}

/// The node type a diagram draws `kind` as.
pub fn node_type(kind: SymbolKind) -> (r: Option<&'static str>)
    ensures
        match r {
            Some(s) => node_type_of(kind) == Some(s@),
            None => node_type_of(kind) is None,
        },
{
    match kind {
        SymbolKind::PartDef => Some("PartDef"),
        SymbolKind::ItemDef => Some("ItemDef"),
        SymbolKind::ActionDef => Some("ActionDef"),
        SymbolKind::PortDef => Some("PortDef"),
        SymbolKind::AttributeDef => Some("AttributeDef"),
        SymbolKind::ConnectionDef => Some("ConnectionDef"),
        SymbolKind::InterfaceDef => Some("InterfaceDef"),
        SymbolKind::AllocationDef => Some("AllocationDef"),
        SymbolKind::RequirementDef => Some("RequirementDef"),
        SymbolKind::ConstraintDef => Some("ConstraintDef"),
        SymbolKind::StateDef => Some("StateDef"),
        SymbolKind::CalculationDef => Some("CalculationDef"),
        SymbolKind::UseCaseDef => Some("UseCaseDef"),
        SymbolKind::AnalysisCaseDef => Some("AnalysisCaseDef"),
        SymbolKind::ConcernDef => Some("ConcernDef"),
        SymbolKind::ViewDef => Some("ViewDef"),
        SymbolKind::ViewpointDef => Some("ViewpointDef"),
        SymbolKind::RenderingDef => Some("RenderingDef"),
        SymbolKind::EnumerationDef => Some("EnumerationDef"),
        SymbolKind::PartUsage => Some("PartUsage"),
        SymbolKind::ItemUsage => Some("ItemUsage"),
        SymbolKind::ActionUsage => Some("ActionUsage"),
        SymbolKind::PortUsage => Some("PortUsage"),
        SymbolKind::AttributeUsage => Some("AttributeUsage"),
        SymbolKind::ConnectionUsage => Some("ConnectionUsage"),
        SymbolKind::InterfaceUsage => Some("InterfaceUsage"),
        SymbolKind::AllocationUsage => Some("AllocationUsage"),
        SymbolKind::RequirementUsage => Some("RequirementUsage"),
        SymbolKind::ConstraintUsage => Some("ConstraintUsage"),
        SymbolKind::StateUsage => Some("StateUsage"),
        SymbolKind::CalculationUsage => Some("CalculationUsage"),
        SymbolKind::ReferenceUsage => Some("ReferenceUsage"),
        SymbolKind::OccurrenceUsage => Some("OccurrenceUsage"),
        SymbolKind::FlowUsage => Some("FlowUsage"),
        SymbolKind::Package => Some("Package"),
        _ => None,
    }
}

/// What a diagram shows as the type of a symbol: the definition it is
/// typed by, else its first supertype.
pub open spec fn shown_type(sym: Symbol) -> Option<Seq<char>> {
    match sym.typed_by {
        Some(t) => Some(t@),
        None => if sym.supertypes@.len() > 0 {
            Some(sym.supertypes@[0]@)
        } else {
            None
        },
    }
}

/// The node that a symbol becomes, if its kind is drawn.
pub open spec fn diagram_view_of(sym: Symbol) -> Option<DiagramSymbolView> {
    match node_type_of(sym.kind) {
        Some(nt) => Some(
            DiagramSymbolView {
                name: sym.name@,
                qualified_name: sym.qualified_name@,
                node_type: nt,
                parent: parent_of(sym.qualified_name@),
                typed_by: shown_type(sym),
            },
        ),
        None => None,
    }
}

/// Converts a symbol to a diagram node; kinds that are not drawn (aliases,
/// imports, comments and the like) give none.
pub fn convert_symbol_to_diagram(symbol: &Symbol) -> (r: Option<DiagramSymbol>)
    ensures
        match r {
            Some(d) => diagram_view_of(*symbol) == Some(d@) && d.features is None && d.direction is None,
            None => diagram_view_of(*symbol) is None,
        },
{
    let nt = match node_type(symbol.kind) {
        Some(nt) => nt,
        None => {
            return None;
        },
    };
    let typed_by = match &symbol.typed_by {
        Some(t) => Some(t.clone()),
        None => {
            if symbol.supertypes.len() > 0 {
                Some(symbol.supertypes[0].clone())
            } else {
                None
            }
        },
    };
    Some(
        DiagramSymbol {
            name: symbol.name.clone(),
            qualified_name: symbol.qualified_name.clone(),
            node_type: String::from_str(nt),
            parent: extract_parent(symbol.qualified_name.as_str()),
            features: None,
            typed_by,
            direction: None,
        },
    )
}

impl Analysis {
    /// The symbol belongs to the requested part of the workspace.
    pub open spec fn in_view(&self, l: SymbolId, file: Option<FileId>) -> bool {
        match file {
            Some(f) => self.files@[l.file as int].id == f,
            None => true,
        }
    }

    /// The nodes drawn for `ids`, in order.
    pub open spec fn diagram_nodes(&self, ids: Seq<SymbolId>, file: Option<FileId>) -> Seq<
        DiagramSymbolView,
    >
        decreases ids.len(),
    {
        if ids.len() == 0 {
            Seq::empty()
        } else {
            let rest = self.diagram_nodes(ids.drop_last(), file);
            if self.in_view(ids.last(), file) {
                match diagram_view_of(self.sym(ids.last())) {
                    Some(v) => rest.push(v),
                    None => rest,
                }
            } else {
                rest
            }
        }
    }

    /// The typing edges drawn for `ids`, in order.
    pub open spec fn diagram_edges(&self, ids: Seq<SymbolId>, file: Option<FileId>) -> Seq<
        DiagramRelationshipView,
    >
        decreases ids.len(),
    {
        if ids.len() == 0 {
            Seq::empty()
        } else {
            let rest = self.diagram_edges(ids.drop_last(), file);
            let s = self.sym(ids.last());
            if self.in_view(ids.last(), file) && node_type_of(s.kind) is Some {
                match shown_type(s) {
                    Some(t) => rest.push(
                        DiagramRelationshipView {
                            rel_type: "typing"@,
                            source: s.qualified_name@,
                            target: t,
                        },
                    ),
                    None => rest,
                }
            } else {
                rest
            }
        }
    }

    /// Diagram data for the symbols of file `file`, or of the whole
    /// workspace: a node per drawn symbol and a typing edge per drawn symbol
    /// with a type.
    pub fn get_diagram(&self, file: Option<FileId>, view_type: &str) -> (r: DiagramData)
        requires
            self.wf(),
        ensures
            r.symbols@.map_values(|d: DiagramSymbol| d@) == self.diagram_nodes(self.symbols@, file),
            r.relationships@.map_values(|d: DiagramRelationship| d@) == self.diagram_edges(
                self.symbols@,
                file,
            ),
            r.view_type@ == view_type@,
    {
        let mut symbols: Vec<DiagramSymbol> = Vec::new();
        let mut relationships: Vec<DiagramRelationship> = Vec::new();
        let mut k: usize = 0;
        while k < self.symbols.len()
            invariant
                self.wf(),
                k <= self.symbols@.len(),
                symbols@.map_values(|d: DiagramSymbol| d@) == self.diagram_nodes(
                    self.symbols@.subrange(0, k as int),
                    file,
                ),
                relationships@.map_values(|d: DiagramRelationship| d@) == self.diagram_edges(
                    self.symbols@.subrange(0, k as int),
                    file,
                ),
            decreases self.symbols.len() - k,
        {
            let id = self.symbols[k];
            assert(is_live(self.files@, self.symbols@[k as int]));
            let ghost pre = self.symbols@.subrange(0, k as int);
            assert(self.symbols@.subrange(0, k as int + 1).drop_last() =~= pre);
            let ghost s0 = symbols@;
            let ghost r0 = relationships@;
            let wanted = match file {
                Some(f) => self.files[id.file].id == f,
                None => true,
            };
            if wanted {
                match convert_symbol_to_diagram(&self.files[id.file].symbols[id.index]) {
                    Some(d) => {
                        match &d.typed_by {
                            Some(t) => {
                                proof {
                                    reveal_strlit("typing");
                                }
                                let rel = DiagramRelationship {
                                    rel_type: String::from_str("typing"),
                                    source: d.qualified_name.clone(),
                                    target: t.clone(),
                                };
                                relationships.push(rel);
                                assert(relationships@.map_values(|d: DiagramRelationship| d@)
                                    =~= r0.map_values(|d: DiagramRelationship| d@).push(rel@));
                            },
                            None => {},
                        }
                        symbols.push(d);
                        assert(symbols@.map_values(|d: DiagramSymbol| d@) =~= s0.map_values(
                            |d: DiagramSymbol| d@,
                        ).push(d@));
                    },
                    None => {},
                }
            }
            k = k + 1;
        }
        assert(self.symbols@.subrange(0, k as int) =~= self.symbols@);
        DiagramData { symbols, relationships, view_type: String::from_str(view_type) }
    }
}

} // verus!
