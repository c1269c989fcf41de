//! The data that one file contributes to the workspace: symbols, scopes,
//! imports and the raw name references found inside declarations.
use vstd::prelude::*;

verus! {

/// Identifies a file of the workspace.
pub type FileId = usize;

/// The kind of a declared element.
#[derive(Clone, Copy, Debug, PartialEq, Eq, Structural)]
pub enum SymbolKind {
    Package,
    PartDef,
    ItemDef,
    ActionDef,
    PortDef,
    AttributeDef,
    ConnectionDef,
    InterfaceDef,
    AllocationDef,
    RequirementDef,
    ConstraintDef,
    StateDef,
    CalculationDef,
    UseCaseDef,
    AnalysisCaseDef,
    ConcernDef,
    ViewDef,
    ViewpointDef,
    RenderingDef,
    EnumerationDef,
    PartUsage,
    ItemUsage,
    ActionUsage,
    PortUsage,
    AttributeUsage,
    ConnectionUsage,
    InterfaceUsage,
    AllocationUsage,
    RequirementUsage,
    ConstraintUsage,
    StateUsage,
    CalculationUsage,
    ReferenceUsage,
    OccurrenceUsage,
    FlowUsage,
    Feature,
    Classifier,
    Alias,
    Import,
    Comment,
    Dependency,
    Other,
}

impl SymbolKind {
    /// Usages: instances of a definition, typed by it.
    pub open spec fn spec_is_usage(self) -> bool {
        match self {
            SymbolKind::PartUsage | SymbolKind::ItemUsage | SymbolKind::ActionUsage
            | SymbolKind::PortUsage | SymbolKind::AttributeUsage | SymbolKind::ConnectionUsage
            | SymbolKind::InterfaceUsage | SymbolKind::AllocationUsage
            | SymbolKind::RequirementUsage | SymbolKind::ConstraintUsage
            | SymbolKind::StateUsage | SymbolKind::CalculationUsage
            | SymbolKind::ReferenceUsage | SymbolKind::OccurrenceUsage
            | SymbolKind::FlowUsage | SymbolKind::Feature => true,
            _ => false,
        }
    }

    #[verifier::when_used_as_spec(spec_is_usage)]
    pub fn is_usage(self) -> (r: bool)
        ensures
            r == self.spec_is_usage(),
    {
        match self {
            SymbolKind::PartUsage | SymbolKind::ItemUsage | SymbolKind::ActionUsage
            | SymbolKind::PortUsage | SymbolKind::AttributeUsage | SymbolKind::ConnectionUsage
            | SymbolKind::InterfaceUsage | SymbolKind::AllocationUsage
            | SymbolKind::RequirementUsage | SymbolKind::ConstraintUsage
            | SymbolKind::StateUsage | SymbolKind::CalculationUsage
            | SymbolKind::ReferenceUsage | SymbolKind::OccurrenceUsage
            | SymbolKind::FlowUsage | SymbolKind::Feature => true,
            _ => false,
        }
    }

    /// Definitions: reusable type-like declarations.
    pub open spec fn spec_is_definition(self) -> bool {
        match self {
            SymbolKind::PartDef | SymbolKind::ItemDef | SymbolKind::ActionDef
            | SymbolKind::PortDef | SymbolKind::AttributeDef | SymbolKind::ConnectionDef
            | SymbolKind::InterfaceDef | SymbolKind::AllocationDef
            | SymbolKind::RequirementDef | SymbolKind::ConstraintDef | SymbolKind::StateDef
            | SymbolKind::CalculationDef | SymbolKind::UseCaseDef
            | SymbolKind::AnalysisCaseDef | SymbolKind::ConcernDef | SymbolKind::ViewDef
            | SymbolKind::ViewpointDef | SymbolKind::RenderingDef
            | SymbolKind::EnumerationDef | SymbolKind::Classifier => true,
            _ => false,
        }
    }

    #[verifier::when_used_as_spec(spec_is_definition)]
    pub fn is_definition(self) -> (r: bool)
        ensures
            r == self.spec_is_definition(),
    {
        match self {
            SymbolKind::PartDef | SymbolKind::ItemDef | SymbolKind::ActionDef
            | SymbolKind::PortDef | SymbolKind::AttributeDef | SymbolKind::ConnectionDef
            | SymbolKind::InterfaceDef | SymbolKind::AllocationDef
            | SymbolKind::RequirementDef | SymbolKind::ConstraintDef | SymbolKind::StateDef
            | SymbolKind::CalculationDef | SymbolKind::UseCaseDef
            | SymbolKind::AnalysisCaseDef | SymbolKind::ConcernDef | SymbolKind::ViewDef
            | SymbolKind::ViewpointDef | SymbolKind::RenderingDef
            | SymbolKind::EnumerationDef | SymbolKind::Classifier => true,
            _ => false,
        }
    }

    /// Kinds that name something a reference may resolve to: everything but
    /// import records, comments and dependencies.
    pub open spec fn spec_is_nameable(self) -> bool {
        !(self is Import || self is Comment || self is Dependency)
    }

    #[verifier::when_used_as_spec(spec_is_nameable)]
    pub fn is_nameable(self) -> (r: bool)
        ensures
            r == self.spec_is_nameable(),
    {
        match self {
            SymbolKind::Import | SymbolKind::Comment | SymbolKind::Dependency => false,
            _ => true,
        }
    }
}

/// A zero-based line and column.
#[derive(Clone, Copy, Debug, PartialEq, Eq, Structural)]
pub struct Position {
    pub line: u32,
    pub column: u32,
}

/// A source range, from `start` to `end` inclusive of both ends.
#[derive(Clone, Copy, Debug, PartialEq, Eq, Structural)]
pub struct Span {
    pub start: Position,
    pub end: Position,
}

/// `a` comes at or before `b`.
pub open spec fn pos_le(a: Position, b: Position) -> bool {
    a.line < b.line || (a.line == b.line && a.column <= b.column)
}

/// The position lies within the span.
pub open spec fn span_contains(s: Span, p: Position) -> bool {
    pos_le(s.start, p) && pos_le(p, s.end)
}

impl Span {
    pub fn contains(self, p: Position) -> (r: bool)
        ensures
            r == span_contains(self, p),
    {
        (self.start.line < p.line || (self.start.line == p.line && self.start.column
            <= p.column)) && (p.line < self.end.line || (p.line == self.end.line && p.column
            <= self.end.column))
    }
}

/// How a name occurrence relates its declaration to the target.
#[derive(Clone, Copy, Debug, PartialEq, Eq, Structural)]
pub enum RefKind {
    Specializes,
    Subsets,
    Redefines,
    Typed,
    FeatureChainPart,
    ViaPort,
    SendTarget,
    TransitionTarget,
    Other,
}

/// Which part of a dotted chain `a.b.c` an occurrence is.
#[derive(Clone, Debug)]
pub struct ChainContext {
    pub chain_parts: Vec<String>,
    pub chain_index: usize,
}

/// One name occurrence inside a symbol's declaration.
#[derive(Clone, Debug)]
pub struct TypeRef {
    pub target: String,
    pub span: Span,
    pub kind: RefKind,
    pub chain: Option<ChainContext>,
}

/// An import declaration of a scope. `path` names the imported element,
/// or for a wildcard the namespace whose members are imported.
#[derive(Clone, Debug)]
pub struct Import {
    pub path: String,
    pub is_public: bool,
    pub is_wildcard: bool,
    pub is_recursive: bool,
}

/// A node of a file's scope tree. Scope 0 is the file's root; every other
/// scope has a parent with a smaller index, so the tree has no cycles.
#[derive(Clone, Debug)]
pub struct Scope {
    pub parent: Option<usize>,
    pub imports: Vec<Import>,
}

/// A declared named element. `scope` is the index, in its file, of the
/// scope it is declared in; `body` is the scope of its own body, if any.
#[derive(Clone, Debug)]
pub struct Symbol {
    pub name: String,
    pub qualified_name: String,
    pub kind: SymbolKind,
    pub scope: usize,
    pub body: Option<usize>,
    pub span: Span,
    pub documentation: Option<String>,
    pub typed_by: Option<String>,
    pub supertypes: Vec<String>,
    pub alias_target: Option<String>,
    pub type_refs: Vec<TypeRef>,
}

/// Everything one file contributes.
#[derive(Clone, Debug)]
pub struct FileRecord {
    pub id: FileId,
    pub path: String,
    pub scopes: Vec<Scope>,
    pub symbols: Vec<Symbol>,
}

/// The scope tree is rooted at scope 0 and parents come first; every
/// symbol's scopes exist, and a body scope is not the declaring scope.
pub open spec fn scopes_wf(scopes: Seq<Scope>) -> bool {
    &&& scopes.len() >= 1
    &&& scopes[0].parent is None
    &&& forall|i: int|
        #![trigger scopes[i]]
        1 <= i < scopes.len() ==> (scopes[i].parent matches Some(p) && p < i)
}

pub open spec fn symbol_wf(sym: Symbol, n_scopes: nat) -> bool {
    &&& sym.scope < n_scopes
    &&& (sym.body matches Some(b) ==> b < n_scopes && b != sym.scope)
}

pub open spec fn record_wf(r: FileRecord) -> bool {
    &&& scopes_wf(r.scopes@)
    &&& forall|k: int|
        #![trigger r.symbols@[k]]
        0 <= k < r.symbols@.len() ==> symbol_wf(r.symbols@[k], r.scopes@.len())
}

/// Checks the structural conditions that the engine relies on.
pub fn contribution_is_well_formed(scopes: &Vec<Scope>, symbols: &Vec<Symbol>) -> (r: bool)
    ensures
        r == (scopes_wf(scopes@) && forall|k: int|
            #![trigger symbols@[k]]
            0 <= k < symbols@.len() ==> symbol_wf(symbols@[k], scopes@.len())),
{
    if scopes.len() == 0 {
        return false;
    }
    if scopes[0].parent.is_some() {
        return false;
    }
    let mut i: usize = 1;
    while i < scopes.len()
        invariant
            1 <= i <= scopes@.len(),
            forall|j: int|
                #![trigger scopes@[j]]
                1 <= j < i ==> (scopes@[j].parent matches Some(p) && p < j),
        decreases scopes.len() - i,
    {
        match scopes[i].parent {
            Some(p) => {
                if p >= i {
                    return false;
                }
            },
            None => {
                return false;
            },
        }
        i = i + 1;
    }
    let n = scopes.len();
    let mut k: usize = 0;
    while k < symbols.len()
        invariant
            k <= symbols@.len(),
            n == scopes@.len(),
            forall|j: int|
                #![trigger symbols@[j]]
                0 <= j < k ==> symbol_wf(symbols@[j], n as nat),
        decreases symbols.len() - k,
    {
        let s = &symbols[k];
        if s.scope >= n {
            return false;
        }
        match s.body {
            Some(b) => {
                if b >= n || b == s.scope {
                    return false;
                }
            },
            None => {},
        }
        k = k + 1;
    }
    true
}

} // verus!
