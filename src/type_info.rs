//! The custom type-information request: what the type reference under the
//! cursor is, and what it resolves to.
use vstd::prelude::*;
use crate::analysis::{Analysis, RefId, ref_at};
use crate::model::{FileId, Position, RefKind, SymbolKind, TypeRef};
use crate::diagram::opt_view;

verus! {

/// The custom request that asks for type information.
pub struct TypeInfoRequest;

impl TypeInfoRequest {
    pub const METHOD: &'static str = "syster/typeInfo";
}

/// What the type-information request returns.
#[derive(Clone, Debug)]
pub struct TypeInfoResult {
    pub target_name: String,
    pub resolved_name: Option<String>,
    pub target_kind: Option<String>,
    pub target_doc: Option<String>,
    pub container: Option<String>,
    pub ref_kind: String,
    pub start_line: u32,
    pub start_col: u32,
    pub end_line: u32,
    pub end_col: u32,
}

/// An owned copy of a reference's text and span.
#[derive(Clone, Debug)]
pub struct TypeRefSnapshot {
    pub target: String,
    pub start_line: u32,
    pub start_col: u32,
    pub end_line: u32,
    pub end_col: u32,
    pub source_symbol: Option<String>,
    pub file_path: Option<String>,
}

impl TypeRefSnapshot {
    /// Copies a reference; the source symbol and file are left unset.
    pub fn from(tr: &TypeRef) -> (r: TypeRefSnapshot)
        ensures
            r.target@ == tr.target@,
            r.start_line == tr.span.start.line,
            r.start_col == tr.span.start.column,
            r.end_line == tr.span.end.line,
            r.end_col == tr.span.end.column,
            r.source_symbol is None,
            r.file_path is None,
    {
        TypeRefSnapshot {
            target: tr.target.clone(),
            start_line: tr.span.start.line,
            start_col: tr.span.start.column,
            end_line: tr.span.end.line,
            end_col: tr.span.end.column,
            source_symbol: None,
            file_path: None,
        }
    }
}

/// How a symbol kind is written in the language.
pub open spec fn kind_text(kind: SymbolKind) -> Seq<char> {
    match kind {
        SymbolKind::Package => "package"@,
        SymbolKind::PartDef => "part def"@,
        SymbolKind::ItemDef => "item def"@,
        SymbolKind::ActionDef => "action def"@,
        SymbolKind::PortDef => "port def"@,
        SymbolKind::AttributeDef => "attribute def"@,
        SymbolKind::ConnectionDef => "connection def"@,
        SymbolKind::InterfaceDef => "interface def"@,
        SymbolKind::AllocationDef => "allocation def"@,
        SymbolKind::RequirementDef => "requirement def"@,
        SymbolKind::ConstraintDef => "constraint def"@,
        SymbolKind::StateDef => "state def"@,
        SymbolKind::CalculationDef => "calc def"@,
        SymbolKind::UseCaseDef => "use case def"@,
        SymbolKind::AnalysisCaseDef => "analysis case def"@,
        SymbolKind::ConcernDef => "concern def"@,
        SymbolKind::ViewDef => "view def"@,
        SymbolKind::ViewpointDef => "viewpoint def"@,
        SymbolKind::RenderingDef => "rendering def"@,
        SymbolKind::EnumerationDef => "enum def"@,
        SymbolKind::PartUsage => "part"@,
        SymbolKind::ItemUsage => "item"@,
        SymbolKind::ActionUsage => "action"@,
        SymbolKind::PortUsage => "port"@,
        SymbolKind::AttributeUsage => "attribute"@,
        SymbolKind::ConnectionUsage => "connection"@,
        SymbolKind::InterfaceUsage => "interface"@,
        SymbolKind::AllocationUsage => "allocation"@,
        SymbolKind::RequirementUsage => "requirement"@,
        SymbolKind::ConstraintUsage => "constraint"@,
        SymbolKind::StateUsage => "state"@,
        SymbolKind::CalculationUsage => "calc"@,
        SymbolKind::ReferenceUsage => "ref"@,
        SymbolKind::OccurrenceUsage => "occurrence"@,
        SymbolKind::FlowUsage => "flow"@,
        SymbolKind::Feature => "feature"@,
        SymbolKind::Classifier => "classifier"@,
        SymbolKind::Alias => "alias"@,
        SymbolKind::Import => "import"@,
        SymbolKind::Comment => "comment"@,
        SymbolKind::Dependency => "dependency"@,
        SymbolKind::Other => "element"@,
    }
}

pub fn kind_display(kind: SymbolKind) -> (r: &'static str)
    ensures
        r@ == kind_text(kind),
{
    match kind {
        SymbolKind::Package => "package",
        SymbolKind::PartDef => "part def",
        SymbolKind::ItemDef => "item def",
        SymbolKind::ActionDef => "action def",
        SymbolKind::PortDef => "port def",
        SymbolKind::AttributeDef => "attribute def",
        SymbolKind::ConnectionDef => "connection def",
        SymbolKind::InterfaceDef => "interface def",
        SymbolKind::AllocationDef => "allocation def",
        SymbolKind::RequirementDef => "requirement def",
        SymbolKind::ConstraintDef => "constraint def",
        SymbolKind::StateDef => "state def",
        SymbolKind::CalculationDef => "calc def",
        SymbolKind::UseCaseDef => "use case def",
        SymbolKind::AnalysisCaseDef => "analysis case def",
        SymbolKind::ConcernDef => "concern def",
        SymbolKind::ViewDef => "view def",
        SymbolKind::ViewpointDef => "viewpoint def",
        SymbolKind::RenderingDef => "rendering def",
        SymbolKind::EnumerationDef => "enum def",
        SymbolKind::PartUsage => "part",
        SymbolKind::ItemUsage => "item",
        SymbolKind::ActionUsage => "action",
        SymbolKind::PortUsage => "port",
        SymbolKind::AttributeUsage => "attribute",
        SymbolKind::ConnectionUsage => "connection",
        SymbolKind::InterfaceUsage => "interface",
        SymbolKind::AllocationUsage => "allocation",
        SymbolKind::RequirementUsage => "requirement",
        SymbolKind::ConstraintUsage => "constraint",
        SymbolKind::StateUsage => "state",
        SymbolKind::CalculationUsage => "calc",
        SymbolKind::ReferenceUsage => "ref",
        SymbolKind::OccurrenceUsage => "occurrence",
        SymbolKind::FlowUsage => "flow",
        SymbolKind::Feature => "feature",
        SymbolKind::Classifier => "classifier",
        SymbolKind::Alias => "alias",
        SymbolKind::Import => "import",
        SymbolKind::Comment => "comment",
        SymbolKind::Dependency => "dependency",
        SymbolKind::Other => "element",
    }
}

/// The name of a reference kind.
pub open spec fn ref_kind_text(kind: RefKind) -> Seq<char> {
    match kind {
        RefKind::Specializes => "specializes"@,
        RefKind::Subsets => "subsets"@,
        RefKind::Redefines => "redefines"@,
        RefKind::Typed => "typed_by"@,
        RefKind::FeatureChainPart => "feature_chain"@,
        RefKind::ViaPort => "via_port"@,
        RefKind::SendTarget => "send_target"@,
        RefKind::TransitionTarget => "transition_target"@,
        RefKind::Other => "other"@,
    }
}

pub fn ref_kind_display(kind: RefKind) -> (r: &'static str)
    ensures
        r@ == ref_kind_text(kind),
{
    match kind {
        RefKind::Specializes => "specializes",
        RefKind::Subsets => "subsets",
        RefKind::Redefines => "redefines",
        RefKind::Typed => "typed_by",
        RefKind::FeatureChainPart => "feature_chain",
        RefKind::ViaPort => "via_port",
        RefKind::SendTarget => "send_target",
        RefKind::TransitionTarget => "transition_target",
        RefKind::Other => "other",
    }
}

impl Analysis {
    /// Information on the reference `r`.
    pub open spec fn info_matches(&self, r: RefId, res: TypeInfoResult) -> bool {
        let t = ref_at(self.files@, r);
        let target = self.spec_resolve_reference(r);
        &&& res.target_name@ == t.target@
        &&& (res.resolved_name is Some <==> target is Some)
        &&& (res.target_kind is Some <==> target is Some)
        &&& (target matches Some(l) ==> opt_view(res.resolved_name) == Some(
            self.sym(l).qualified_name@,
        ) && opt_view(res.target_kind) == Some(kind_text(self.sym(l).kind)) && opt_view(
            res.target_doc,
        ) == opt_view(self.sym(l).documentation))
        &&& (target is None ==> res.target_doc is None)
        &&& opt_view(res.container) == Some(self.source_name(r))
        &&& res.ref_kind@ == ref_kind_text(t.kind)
        &&& res.start_line == t.span.start.line
        &&& res.start_col == t.span.start.column
        &&& res.end_line == t.span.end.line
        &&& res.end_col == t.span.end.column
    }

    /// Type information on the reference at a position of file `file`.
    pub fn get_type_info(&self, file: FileId, position: Position) -> (r: Option<TypeInfoResult>)
        requires
            self.wf(),
        ensures
            match self.first_ref_at(self.references@, file, position, 0) {
                Some(x) => r matches Some(res) && self.info_matches(x, res),
                None => r is None,
            },
    {
        let x = match self.get_reference_at_position(file, position) {
            Some(x) => x,
            None => {
                return None;
            },
        };
        let t = &self.files[x.file].symbols[x.symbol].type_refs[x.index];
        let (resolved_name, target_kind, target_doc) = match self.resolve_reference(x) {
            Some(l) => {
                let s = &self.files[l.file].symbols[l.index];
                let doc = match &s.documentation {
                    Some(d) => Some(d.clone()),
                    None => None,
                };
                (
                    Some(s.qualified_name.clone()),
                    Some(String::from_str(kind_display(s.kind))),
                    doc,
                )
            },
            None => (None, None, None),
        };
        Some(
            TypeInfoResult {
                target_name: t.target.clone(),
                resolved_name,
                target_kind,
                target_doc,
                container: Some(self.files[x.file].symbols[x.symbol].qualified_name.clone()),
                ref_kind: String::from_str(ref_kind_display(t.kind)),
                start_line: t.span.start.line,
                start_col: t.span.start.column,
                end_line: t.span.end.line,
                end_col: t.span.end.column,
            },
        )
    }
}

} // verus!
