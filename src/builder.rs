//! Builds one file's contribution: declares symbols inside scopes, gives
//! each its qualified name and, where it has a body, its own scope.
use vstd::prelude::*;
use crate::model::{Import, Scope, Span, Symbol, SymbolKind, TypeRef, scopes_wf, symbol_wf};
use crate::resolve::{qualify, string_views};

verus! {

/// The scope tree and symbols of one file, under construction.
pub struct FileBuilder {
    scopes: Vec<Scope>,
    symbols: Vec<Symbol>,
    owners: Vec<Option<usize>>,
}

impl FileBuilder {
    pub closed spec fn scopes(&self) -> Seq<Scope> {
        self.scopes@
    }

    pub closed spec fn symbols(&self) -> Seq<Symbol> {
        self.symbols@
    }

    /// The qualified name of the symbol whose body is scope `s`; empty for
    /// the root.
    pub closed spec fn scope_name(&self, s: int) -> Seq<char> {
        match self.owners@[s] {
            Some(o) => self.symbols@[o as int].qualified_name@,
            None => Seq::empty(),
        }
    }

    /// The qualified name of `name` declared in scope `s`.
    pub open spec fn name_in(&self, s: int, name: Seq<char>) -> Seq<char> {
        if s == 0 {
            name
        } else {
            qualify(self.scope_name(s), name)
        }
    }

    pub closed spec fn wf(&self) -> bool {
        &&& scopes_wf(self.scopes@)
        &&& self.owners@.len() == self.scopes@.len()
        &&& self.owners@[0] is None
        &&& forall|i: int|
            #![trigger self.owners@[i]]
            1 <= i < self.owners@.len() ==> (self.owners@[i] matches Some(o) && o
                < self.symbols@.len())
        &&& forall|k: int|
            #![trigger self.symbols@[k]]
            0 <= k < self.symbols@.len() ==> symbol_wf(self.symbols@[k], self.scopes@.len())
    }

    /// A builder holding only the file's root scope.
    pub fn new() -> (r: FileBuilder)
        ensures
            r.wf(),
            r.scopes().len() == 1,
            r.symbols().len() == 0,
    {
        let mut scopes: Vec<Scope> = Vec::new();
        scopes.push(Scope { parent: None, imports: Vec::new() });
        let mut owners: Vec<Option<usize>> = Vec::new();
        owners.push(None);
        FileBuilder { scopes, symbols: Vec::new(), owners }
    }

    pub fn scope_count(&self) -> (r: usize)
        ensures
            r == self.scopes().len(),
    {
        self.scopes.len()
    }

    /// Declares `name` in scope `scope` and returns its index; with
    /// `with_body` the symbol also gets a new scope for its body, a child
    /// of `scope`.
    pub fn declare(&mut self, scope: usize, kind: SymbolKind, name: &str, span: Span, with_body: bool) -> (r:
        usize)
        requires
            old(self).wf(),
            scope < old(self).scopes().len(),
        ensures
            final(self).wf(),
            r == old(self).symbols().len(),
            final(self).symbols().len() == r + 1,
            final(self).symbols().subrange(0, r as int) == old(self).symbols(),
            final(self).symbols()[r as int].name@ == name@,
            final(self).symbols()[r as int].qualified_name@ == old(self).name_in(scope as int, name@),
            final(self).symbols()[r as int].kind == kind,
            final(self).symbols()[r as int].scope == scope,
            final(self).symbols()[r as int].span == span,
            final(self).symbols()[r as int].supertypes@.len() == 0,
            final(self).symbols()[r as int].type_refs@.len() == 0,
            final(self).symbols()[r as int].typed_by is None,
            final(self).symbols()[r as int].alias_target is None,
            with_body ==> final(self).symbols()[r as int].body == Some(old(self).scopes().len() as usize)
                && final(self).scopes().len() == old(self).scopes().len() + 1,
            !with_body ==> final(self).symbols()[r as int].body is None && final(self).scopes()
                == old(self).scopes(),
    {
        let qn = if scope == 0 {
            String::from_str(name)
        } else {
            match self.owners[scope] {
                Some(o) => {
                    let n = String::from_str(name);
                    crate::resolve::qualify_exec(&self.symbols[o].qualified_name, &n)
                },
                None => String::from_str(name),
            }
        };
        let index = self.symbols.len();
        let body = if with_body {
            let b = self.scopes.len();
            self.scopes.push(Scope { parent: Some(scope), imports: Vec::new() });
            self.owners.push(Some(index));
            Some(b)
        } else {
            None
        };
        let ghost before = self.symbols@;
        self.symbols.push(
            Symbol {
                name: String::from_str(name),
                qualified_name: qn,
                kind,
                scope,
                body,
                span,
                documentation: None,
                typed_by: None,
                supertypes: Vec::new(),
                alias_target: None,
                type_refs: Vec::new(),
            },
        );
        assert(self.symbols@.subrange(0, index as int) =~= before);
        proof {
            assert forall|k: int| 0 <= k < self.symbols@.len() implies symbol_wf(
                #[trigger] self.symbols@[k],
                self.scopes@.len(),
            ) by {
                if k < before.len() {
                    assert(self.symbols@[k] == before[k]);
                }
            }
            assert forall|i: int| 1 <= i < self.scopes@.len() implies (
            #[trigger] self.scopes@[i]).parent matches Some(p) && p < i by {}
        }
        index
    }

    /// Adds an import declaration to scope `scope`.
    pub fn add_import(&mut self, scope: usize, import: Import)
        requires
            old(self).wf(),
            scope < old(self).scopes().len(),
        ensures
            final(self).wf(),
            final(self).symbols() == old(self).symbols(),
            final(self).scopes().len() == old(self).scopes().len(),
            final(self).scopes()[scope as int].imports@ == old(self).scopes()[scope as int].imports@.push(
                import,
            ),
            final(self).scopes()[scope as int].parent == old(self).scopes()[scope as int].parent,
            forall|i: int|
                0 <= i < final(self).scopes().len() && i != scope ==> final(self).scopes()[i]
                    == old(self).scopes()[i],
    {
        self.scopes[scope].imports.push(import);
    }

    /// Records the definition that symbol `sym` is typed by.
    pub fn set_typed_by(&mut self, sym: usize, target_name: &str)
        requires
            old(self).wf(),
            sym < old(self).symbols().len(),
        ensures
            final(self).wf(),
            final(self).scopes() == old(self).scopes(),
            final(self).symbols().len() == old(self).symbols().len(),
            final(self).symbols()[sym as int].typed_by matches Some(t) && t@ == target_name@,
            final(self).symbols()[sym as int].supertypes == old(self).symbols()[sym as int].supertypes,
            final(self).symbols()[sym as int].qualified_name == old(
                self,
            ).symbols()[sym as int].qualified_name,
            final(self).symbols()[sym as int].kind == old(self).symbols()[sym as int].kind,
            forall|k: int|
                0 <= k < final(self).symbols().len() && k != sym ==> final(self).symbols()[k]
                    == old(self).symbols()[k],
    {
        self.symbols[sym].typed_by = Some(String::from_str(target_name));
        proof {
            self.lemma_symbols_still_wf(sym as int);
        }
    }

    /// Appends a specialization target to symbol `sym`.
    pub fn add_supertype(&mut self, sym: usize, target_name: &str)
        requires
            old(self).wf(),
            sym < old(self).symbols().len(),
        ensures
            final(self).wf(),
            final(self).scopes() == old(self).scopes(),
            final(self).symbols().len() == old(self).symbols().len(),
            string_views(final(self).symbols()[sym as int].supertypes@) == string_views(
                old(self).symbols()[sym as int].supertypes@,
            ).push(target_name@),
            final(self).symbols()[sym as int].typed_by == old(self).symbols()[sym as int].typed_by,
            final(self).symbols()[sym as int].qualified_name == old(
                self,
            ).symbols()[sym as int].qualified_name,
            final(self).symbols()[sym as int].kind == old(self).symbols()[sym as int].kind,
            forall|k: int|
                0 <= k < final(self).symbols().len() && k != sym ==> final(self).symbols()[k]
                    == old(self).symbols()[k],
    {
        self.symbols[sym].supertypes.push(String::from_str(target_name));
        assert(string_views(self.symbols@[sym as int].supertypes@) =~= string_views(
            old(self).symbols@[sym as int].supertypes@,
        ).push(target_name@));
        proof {
            self.lemma_symbols_still_wf(sym as int);
        }
    }

    /// Makes symbol `sym` an alias for the element named `target`.
    pub fn set_alias_target(&mut self, sym: usize, target: &str)
        requires
            old(self).wf(),
            sym < old(self).symbols().len(),
        ensures
            final(self).wf(),
            final(self).scopes() == old(self).scopes(),
            final(self).symbols().len() == old(self).symbols().len(),
            final(self).symbols()[sym as int].alias_target matches Some(t) && t@ == target@,
            final(self).symbols()[sym as int].kind == old(self).symbols()[sym as int].kind,
            forall|k: int|
                0 <= k < final(self).symbols().len() && k != sym ==> final(self).symbols()[k]
                    == old(self).symbols()[k],
    {
        self.symbols[sym].alias_target = Some(String::from_str(target));
        proof {
            self.lemma_symbols_still_wf(sym as int);
        }
    }

    /// Attaches documentation to symbol `sym`.
    pub fn set_documentation(&mut self, sym: usize, doc: &str)
        requires
            old(self).wf(),
            sym < old(self).symbols().len(),
        ensures
            final(self).wf(),
            final(self).scopes() == old(self).scopes(),
            final(self).symbols().len() == old(self).symbols().len(),
            final(self).symbols()[sym as int].documentation matches Some(d) && d@ == doc@,
            forall|k: int|
                0 <= k < final(self).symbols().len() && k != sym ==> final(self).symbols()[k]
                    == old(self).symbols()[k],
    {
        self.symbols[sym].documentation = Some(String::from_str(doc));
        proof {
            self.lemma_symbols_still_wf(sym as int);
        }
    }

    /// Records a name occurrence inside the declaration of symbol `sym`.
    pub fn add_reference(&mut self, sym: usize, reference: TypeRef)
        requires
            old(self).wf(),
            sym < old(self).symbols().len(),
        ensures
            final(self).wf(),
            final(self).scopes() == old(self).scopes(),
            final(self).symbols().len() == old(self).symbols().len(),
            final(self).symbols()[sym as int].type_refs@ == old(
                self,
            ).symbols()[sym as int].type_refs@.push(reference),
            final(self).symbols()[sym as int].qualified_name == old(
                self,
            ).symbols()[sym as int].qualified_name,
            final(self).symbols()[sym as int].scope == old(self).symbols()[sym as int].scope,
            forall|k: int|
                0 <= k < final(self).symbols().len() && k != sym ==> final(self).symbols()[k]
                    == old(self).symbols()[k],
    {
        self.symbols[sym].type_refs.push(reference);
        proof {
            self.lemma_symbols_still_wf(sym as int);
        }
    }

    proof fn lemma_symbols_still_wf(&self, sym: int)
        requires
            scopes_wf(self.scopes@),
            self.owners@.len() == self.scopes@.len(),
            self.owners@[0] is None,
            forall|i: int|
                #![trigger self.owners@[i]]
                1 <= i < self.owners@.len() ==> (self.owners@[i] matches Some(o) && o
                    < self.symbols@.len()),
            0 <= sym < self.symbols@.len(),
            symbol_wf(self.symbols@[sym], self.scopes@.len()),
            forall|k: int|
                #![trigger self.symbols@[k]]
                0 <= k < self.symbols@.len() && k != sym ==> symbol_wf(
                    self.symbols@[k],
                    self.scopes@.len(),
                ),
        ensures
            self.wf(),
    {
    }

    /// The scope tree and symbols built, ready for the analysis host.
    pub fn finish(self) -> (r: (Vec<Scope>, Vec<Symbol>))
        requires
            self.wf(),
        ensures
            r.0@ == self.scopes(),
            r.1@ == self.symbols(),
            scopes_wf(r.0@),
            forall|k: int| 0 <= k < r.1@.len() ==> symbol_wf(#[trigger] r.1@[k], r.0@.len()),
    {
        (self.scopes, self.symbols)
    }
}

} // verus!
