//! Name resolution over a snapshot: exact qualified lookup, lexical lookup
//! through scopes and imports, alias following, member lookup through
//! typing and specialization, and feature chains.
use vstd::prelude::*;
use crate::analysis::{Analysis, SymbolId, id_valid, is_live, sym_at};
use crate::model::{Import, Scope, Symbol, SymbolKind};

verus! {

/// A scope of a snapshot: the position of its file and its index there.
#[derive(Clone, Copy, Debug, PartialEq, Eq, Structural)]
pub struct ScopeRef {
    pub file: usize,
    pub index: usize,
}

/// `p::n`.
pub open spec fn qualify(p: Seq<char>, n: Seq<char>) -> Seq<char> {
    p + seq![':', ':'] + n
}

pub open spec fn has_prefix(s: Seq<char>, p: Seq<char>) -> bool {
    p.len() <= s.len() && s.subrange(0, p.len() as int) == p
}

pub open spec fn string_views(v: Seq<String>) -> Seq<Seq<char>> {
    v.map_values(|x: String| x@)
}

pub(crate) fn qualify_exec(p: &String, n: &String) -> (r: String)
    ensures
        r@ == qualify(p@, n@),
{
    let mut r = p.clone();
    r.append("::");
    r.append(n.as_str());
    proof {
        reveal_strlit("::");
        assert("::"@ =~= seq![':', ':']);
    }
    r
}

fn has_prefix_exec(s: &String, p: &String) -> (r: bool)
    ensures
        r == has_prefix(s@, p@),
{
    let sl = s.as_str().unicode_len();
    let pl = p.as_str().unicode_len();
    if pl > sl {
        return false;
    }
    let mut i: usize = 0;
    while i < pl
        invariant
            pl <= sl,
            sl == s@.len(),
            pl == p@.len(),
            i <= pl,
            s@.subrange(0, i as int) == p@.subrange(0, i as int),
        decreases pl - i,
    {
        if s.as_str().get_char(i) != p.as_str().get_char(i) {
            assert(s@.subrange(0, pl as int)[i as int] != p@[i as int]);
            return false;
        }
        assert(s@.subrange(0, i as int + 1) =~= s@.subrange(0, i as int).push(s@[i as int]));
        assert(p@.subrange(0, i as int + 1) =~= p@.subrange(0, i as int).push(p@[i as int]));
        i = i + 1;
    }
    assert(p@.subrange(0, pl as int) =~= p@);
    true
}

fn contains_view(v: &Vec<String>, s: &String) -> (r: bool)
    ensures
        r == string_views(v@).contains(s@),
{
    let mut i: usize = 0;
    while i < v.len()
        invariant
            i <= v@.len(),
            forall|j: int| 0 <= j < i ==> v@[j]@ != s@,
        decreases v.len() - i,
    {
        if v[i] == *s {
            assert(string_views(v@)[i as int] == s@);
            return true;
        }
        i = i + 1;
    }
    assert(!string_views(v@).contains(s@)) by {
        if string_views(v@).contains(s@) {
            let j = choose|j: int| 0 <= j < string_views(v@).len() && string_views(v@)[j] == s@;
            assert(v@[j]@ == s@);
        }
    }
    false
}

impl Analysis {
    pub open spec fn sym(&self, l: SymbolId) -> Symbol {
        sym_at(self.files@, l)
    }

    pub open spec fn scope_valid(&self, sc: ScopeRef) -> bool {
        sc.file < self.files@.len() && sc.index < self.files@[sc.file as int].scopes@.len()
    }

    pub open spec fn scope_at(&self, sc: ScopeRef) -> Scope {
        self.files@[sc.file as int].scopes@[sc.index as int]
    }

    /// The scope in which a symbol is declared.
    pub open spec fn home(&self, l: SymbolId) -> ScopeRef {
        ScopeRef { file: l.file, index: self.sym(l).scope }
    }

    /// The first live symbol, from position `k` of the merged list on, whose
    /// qualified name is `q`.
    pub open spec fn first_qn(&self, q: Seq<char>, k: int) -> Option<SymbolId>
        decreases self.symbols@.len() - k,
    {
        if k < 0 || k >= self.symbols@.len() {
            None
        } else if self.sym(self.symbols@[k]).qualified_name@ == q {
            Some(self.symbols@[k])
        } else {
            self.first_qn(q, k + 1)
        }
    }

    /// Exact global lookup by qualified name.
    pub open spec fn spec_resolve(&self, q: Seq<char>) -> Option<SymbolId> {
        self.first_qn(q, 0)
    }

    /// `l` is named `name` and declared directly in `sc`. The root scopes of
    /// all files together form the one global namespace.
    pub open spec fn declared_in(&self, l: SymbolId, name: Seq<char>, sc: ScopeRef) -> bool {
        &&& self.sym(l).name@ == name
        &&& self.sym(l).kind.spec_is_nameable()
        &&& if sc.index == 0 {
            self.sym(l).scope == 0
        } else {
            l.file == sc.file && self.sym(l).scope == sc.index
        }
    }

    pub open spec fn first_declared(&self, name: Seq<char>, sc: ScopeRef, k: int) -> Option<
        SymbolId,
    >
        decreases self.symbols@.len() - k,
    {
        if k < 0 || k >= self.symbols@.len() {
            None
        } else if self.declared_in(self.symbols@[k], name, sc) {
            Some(self.symbols@[k])
        } else {
            self.first_declared(name, sc, k + 1)
        }
    }

    /// The first live symbol named `name` whose qualified name lies under
    /// `prefix`.
    pub open spec fn first_under(&self, prefix: Seq<char>, name: Seq<char>, k: int) -> Option<
        SymbolId,
    >
        decreases self.symbols@.len() - k,
    {
        if k < 0 || k >= self.symbols@.len() {
            None
        } else if self.sym(self.symbols@[k]).name@ == name && has_prefix(
            self.sym(self.symbols@[k]).qualified_name@,
            prefix,
        ) {
            Some(self.symbols@[k])
        } else {
            self.first_under(prefix, name, k + 1)
        }
    }

    /// What one import makes visible under `name`: a recursive import any
    /// descendant of the namespace, a wildcard its direct member, a plain
    /// import the imported element itself.
    pub open spec fn import_provides(&self, imp: Import, name: Seq<char>) -> Option<SymbolId> {
        if imp.is_recursive {
            self.first_under(qualify(imp.path@, Seq::empty()), name, 0)
        } else if imp.is_wildcard {
            self.first_qn(qualify(imp.path@, name), 0)
        } else {
            match self.first_qn(imp.path@, 0) {
                Some(l) => if self.sym(l).name@ == name {
                    Some(l)
                } else {
                    None
                },
                None => None,
            }
        }
    }

    /// The first of `imps`, from `k` on, that makes `name` visible.
    pub open spec fn imports_from(&self, imps: Seq<Import>, name: Seq<char>, k: int) -> Option<
        SymbolId,
    >
        decreases imps.len() - k,
    {
        if k < 0 || k >= imps.len() {
            None
        } else {
            match self.import_provides(imps[k], name) {
                Some(l) => Some(l),
                None => self.imports_from(imps, name, k + 1),
            }
        }
    }

    /// The imports of the body of the package named `pkg`.
    pub open spec fn body_imports(&self, pkg: Seq<char>) -> Option<Seq<Import>> {
        match self.spec_resolve(pkg) {
            Some(l) => match self.sym(l).body {
                Some(b) => Some(
                    self.scope_at(ScopeRef { file: l.file, index: b }).imports@,
                ),
                None => None,
            },
            None => None,
        }
    }

    /// What the package `pkg` re-exports under `name` through its public
    /// imports, followed transitively; `visited` holds the packages on the
    /// way, so an import cycle ends the search.
    pub open spec fn public_via(&self, pkg: Seq<char>, name: Seq<char>, visited: Seq<Seq<char>>) -> Option<
        SymbolId,
    >
        decreases self.symbols@.len() + 1 - visited.len(), 1int, 0int,
    {
        if visited.len() > self.symbols@.len() {
            None
        } else {
            match self.body_imports(pkg) {
                Some(imps) => self.public_from(imps, name, visited, 0),
                None => None,
            }
        }
    }

    pub open spec fn public_from(
        &self,
        imps: Seq<Import>,
        name: Seq<char>,
        visited: Seq<Seq<char>>,
        k: int,
    ) -> Option<SymbolId>
        decreases self.symbols@.len() + 1 - visited.len(), 0int, imps.len() - k,
    {
        if k < 0 || k >= imps.len() || visited.len() > self.symbols@.len() {
            None
        } else if !imps[k].is_public {
            self.public_from(imps, name, visited, k + 1)
        } else {
            match self.import_provides(imps[k], name) {
                Some(l) => Some(l),
                None => {
                    if imps[k].is_wildcard && !visited.contains(imps[k].path@) {
                        match self.public_via(imps[k].path@, name, visited.push(imps[k].path@)) {
                            Some(l) => Some(l),
                            None => self.public_from(imps, name, visited, k + 1),
                        }
                    } else {
                        self.public_from(imps, name, visited, k + 1)
                    }
                },
            }
        }
    }

    /// Names re-exported by the namespaces that `imps` import by wildcard.
    pub open spec fn transitive_from(&self, imps: Seq<Import>, name: Seq<char>, k: int) -> Option<
        SymbolId,
    >
        decreases imps.len() - k,
    {
        if k < 0 || k >= imps.len() {
            None
        } else if imps[k].is_wildcard {
            match self.public_via(imps[k].path@, name, seq![imps[k].path@]) {
                Some(l) => Some(l),
                None => self.transitive_from(imps, name, k + 1),
            }
        } else {
            self.transitive_from(imps, name, k + 1)
        }
    }

    /// Lexical lookup of a simple name from `sc`: declarations of the scope,
    /// then its own imports, then what those imports re-export, then the
    /// parent scope.
    pub open spec fn lookup(&self, name: Seq<char>, sc: ScopeRef) -> Option<SymbolId>
        decreases sc.index,
    {
        if !self.scope_valid(sc) {
            None
        } else {
            let imps = self.scope_at(sc).imports@;
            match self.first_declared(name, sc, 0) {
                Some(l) => Some(l),
                None => match self.imports_from(imps, name, 0) {
                    Some(l) => Some(l),
                    None => match self.transitive_from(imps, name, 0) {
                        Some(l) => Some(l),
                        None => match self.scope_at(sc).parent {
                            Some(p) => if p < sc.index {
                                self.lookup(name, ScopeRef { file: sc.file, index: p })
                            } else {
                                None
                            },
                            None => None,
                        },
                    },
                },
            }
        }
    }

    /// Lexical lookup, falling back on the name taken as qualified.
    pub open spec fn lookup_or_qualified(&self, name: Seq<char>, sc: ScopeRef) -> Option<SymbolId> {
        match self.lookup(name, sc) {
            Some(l) => Some(l),
            None => self.spec_resolve(name),
        }
    }

    /// Follows aliases from `l` to the element they stand for; each alias
    /// target is resolved from the alias's own scope. At most `fuel` hops,
    /// so an alias cycle resolves to nothing.
    pub open spec fn follow_alias(&self, l: SymbolId, fuel: nat) -> Option<SymbolId>
        decreases fuel,
    {
        if self.sym(l).kind is Alias {
            if fuel == 0 {
                None
            } else {
                match self.sym(l).alias_target {
                    Some(t) => match self.lookup_or_qualified(t@, self.home(l)) {
                        Some(m) => self.follow_alias(m, (fuel - 1) as nat),
                        None => None,
                    },
                    None => None,
                }
            }
        } else {
            Some(l)
        }
    }

    /// What `name`, written in scope `sc`, refers to.
    pub open spec fn spec_resolve_in_scope(&self, name: Seq<char>, sc: ScopeRef) -> Option<SymbolId> {
        match self.lookup_or_qualified(name, sc) {
            Some(l) => self.follow_alias(l, self.symbols@.len()),
            None => None,
        }
    }
}

impl Analysis {
    fn find_qualified(&self, q: &String) -> (r: Option<SymbolId>)
        requires
            self.wf(),
        ensures
            r == self.first_qn(q@, 0),
            r matches Some(l) ==> is_live(self.files@, l),
    {
        let mut k: usize = 0;
        while k < self.symbols.len()
            invariant
                self.wf(),
                k <= self.symbols@.len(),
                self.first_qn(q@, 0) == self.first_qn(q@, k as int),
            decreases self.symbols.len() - k,
        {
            let id = self.symbols[k];
            assert(is_live(self.files@, self.symbols@[k as int]));
            if self.files[id.file].symbols[id.index].qualified_name == *q {
                return Some(id);
            }
            k = k + 1;
        }
        None
    }

    fn find_declared(&self, name: &String, sc: ScopeRef) -> (r: Option<SymbolId>)
        requires
            self.wf(),
        ensures
            r == self.first_declared(name@, sc, 0),
            r matches Some(l) ==> is_live(self.files@, l),
    {
        let mut k: usize = 0;
        while k < self.symbols.len()
            invariant
                self.wf(),
                k <= self.symbols@.len(),
                self.first_declared(name@, sc, 0) == self.first_declared(name@, sc, k as int),
            decreases self.symbols.len() - k,
        {
            let id = self.symbols[k];
            assert(is_live(self.files@, self.symbols@[k as int]));
            let s = &self.files[id.file].symbols[id.index];
            let here = if sc.index == 0 {
                s.scope == 0
            } else {
                id.file == sc.file && s.scope == sc.index
            };
            if s.name == *name && s.kind.is_nameable() && here {
                return Some(id);
            }
            k = k + 1;
        }
        None
    }

    fn find_under(&self, prefix: &String, name: &String) -> (r: Option<SymbolId>)
        requires
            self.wf(),
        ensures
            r == self.first_under(prefix@, name@, 0),
            r matches Some(l) ==> is_live(self.files@, l),
    {
        let mut k: usize = 0;
        while k < self.symbols.len()
            invariant
                self.wf(),
                k <= self.symbols@.len(),
                self.first_under(prefix@, name@, 0) == self.first_under(prefix@, name@, k as int),
            decreases self.symbols.len() - k,
        {
            let id = self.symbols[k];
            assert(is_live(self.files@, self.symbols@[k as int]));
            let s = &self.files[id.file].symbols[id.index];
            if s.name == *name && has_prefix_exec(&s.qualified_name, prefix) {
                return Some(id);
            }
            k = k + 1;
        }
        None
    }

    fn provides(&self, imp: &Import, name: &String) -> (r: Option<SymbolId>)
        requires
            self.wf(),
        ensures
            r == self.import_provides(*imp, name@),
            r matches Some(l) ==> is_live(self.files@, l),
    {
        if imp.is_recursive {
            let prefix = qualify_exec(&imp.path, &String::new());
            assert(prefix@ =~= qualify(imp.path@, Seq::empty()));
            self.find_under(&prefix, name)
        } else if imp.is_wildcard {
            let key = qualify_exec(&imp.path, name);
            self.find_qualified(&key)
        } else {
            match self.find_qualified(&imp.path) {
                Some(l) => {
                    if self.files[l.file].symbols[l.index].name == *name {
                        Some(l)
                    } else {
                        None
                    }
                },
                None => None,
            }
        }
    }

    fn imports_lookup(&self, imps: &Vec<Import>, name: &String) -> (r: Option<SymbolId>)
        requires
            self.wf(),
        ensures
            r == self.imports_from(imps@, name@, 0),
            r matches Some(l) ==> is_live(self.files@, l),
    {
        let mut k: usize = 0;
        while k < imps.len()
            invariant
                self.wf(),
                k <= imps@.len(),
                self.imports_from(imps@, name@, 0) == self.imports_from(imps@, name@, k as int),
            decreases imps.len() - k,
        {
            match self.provides(&imps[k], name) {
                Some(l) => {
                    return Some(l);
                },
                None => {},
            }
            k = k + 1;
        }
        None
    }

    fn body_imports_exec(&self, pkg: &String) -> (r: Option<&Vec<Import>>)
        requires
            self.wf(),
        ensures
            match r {
                Some(v) => self.body_imports(pkg@) == Some(v@),
                None => self.body_imports(pkg@) is None,
            },
    {
        match self.find_qualified(pkg) {
            Some(l) => {
                assert(crate::model::record_wf(self.files@[l.file as int]));
                assert(crate::model::symbol_wf(
                    self.files@[l.file as int].symbols@[l.index as int],
                    self.files@[l.file as int].scopes@.len(),
                ));
                match self.files[l.file].symbols[l.index].body {
                    Some(b) => Some(&self.files[l.file].scopes[b].imports),
                    None => None,
                }
            },
            None => None,
        }
    }

    fn public_via_exec(&self, pkg: &String, name: &String, visited: &mut Vec<String>) -> (r:
        Option<SymbolId>)
        requires
            self.wf(),
        ensures
            r == self.public_via(pkg@, name@, string_views(old(visited)@)),
            r matches Some(l) ==> is_live(self.files@, l),
            final(visited)@ == old(visited)@,
        decreases self.symbols@.len() + 1 - old(visited)@.len(), 1int, 0int,
    {
        if visited.len() > self.symbols.len() {
            return None;
        }
        match self.body_imports_exec(pkg) {
            Some(imps) => self.public_from_exec(imps, name, visited),
            None => None,
        }
    }

    fn public_from_exec(&self, imps: &Vec<Import>, name: &String, visited: &mut Vec<String>) -> (r:
        Option<SymbolId>)
        requires
            self.wf(),
            old(visited)@.len() <= self.symbols@.len(),
        ensures
            r == self.public_from(imps@, name@, string_views(old(visited)@), 0),
            r matches Some(l) ==> is_live(self.files@, l),
            final(visited)@ == old(visited)@,
        decreases self.symbols@.len() + 1 - old(visited)@.len(), 0int, imps@.len(),
    {
        let ghost v0 = visited@;
        let mut k: usize = 0;
        while k < imps.len()
            invariant
                self.wf(),
                k <= imps@.len(),
                visited@ == v0,
                v0 == old(visited)@,
                v0.len() <= self.symbols@.len(),
                self.public_from(imps@, name@, string_views(v0), 0) == self.public_from(
                    imps@,
                    name@,
                    string_views(v0),
                    k as int,
                ),
            decreases imps.len() - k,
        {
            let imp = &imps[k];
            if imp.is_public {
                match self.provides(imp, name) {
                    Some(l) => {
                        return Some(l);
                    },
                    None => {
                        if imp.is_wildcard && !contains_view(visited, &imp.path) {
                            visited.push(imp.path.clone());
                            assert(string_views(visited@) =~= string_views(v0).push(imp.path@));
                            let found = self.public_via_exec(&imp.path, name, visited);
                            let _ = visited.pop();
                            assert(visited@ =~= v0);
                            match found {
                                Some(l) => {
                                    return Some(l);
                                },
                                None => {},
                            }
                        }
                    },
                }
            }
            k = k + 1;
        }
        None
    }

    fn transitive_lookup(&self, imps: &Vec<Import>, name: &String) -> (r: Option<SymbolId>)
        requires
            self.wf(),
        ensures
            r == self.transitive_from(imps@, name@, 0),
            r matches Some(l) ==> is_live(self.files@, l),
    {
        let mut k: usize = 0;
        while k < imps.len()
            invariant
                self.wf(),
                k <= imps@.len(),
                self.transitive_from(imps@, name@, 0) == self.transitive_from(imps@, name@, k as int),
            decreases imps.len() - k,
        {
            let imp = &imps[k];
            if imp.is_wildcard {
                let mut visited: Vec<String> = Vec::new();
                visited.push(imp.path.clone());
                assert(string_views(visited@) =~= seq![imp.path@]);
                match self.public_via_exec(&imp.path, name, &mut visited) {
                    Some(l) => {
                        return Some(l);
                    },
                    None => {},
                }
            }
            k = k + 1;
        }
        None
    }

    fn lookup_exec(&self, name: &String, sc: ScopeRef) -> (r: Option<SymbolId>)
        requires
            self.wf(),
        ensures
            r == self.lookup(name@, sc),
            r matches Some(l) ==> is_live(self.files@, l),
    {
        let mut cur = sc;
        loop
            invariant
                self.wf(),
                self.lookup(name@, sc) == self.lookup(name@, cur),
            decreases cur.index,
        {
            if !(cur.file < self.files.len() && cur.index < self.files[cur.file].scopes.len()) {
                return None;
            }
            match self.find_declared(name, cur) {
                Some(l) => {
                    return Some(l);
                },
                None => {},
            }
            let scope = &self.files[cur.file].scopes[cur.index];
            match self.imports_lookup(&scope.imports, name) {
                Some(l) => {
                    return Some(l);
                },
                None => {},
            }
            match self.transitive_lookup(&scope.imports, name) {
                Some(l) => {
                    return Some(l);
                },
                None => {},
            }
            match scope.parent {
                Some(p) => {
                    if p < cur.index {
                        cur = ScopeRef { file: cur.file, index: p };
                    } else {
                        return None;
                    }
                },
                None => {
                    return None;
                },
            }
        }
    }

    fn lookup_or_qualified_exec(&self, name: &String, sc: ScopeRef) -> (r: Option<SymbolId>)
        requires
            self.wf(),
        ensures
            r == self.lookup_or_qualified(name@, sc),
            r matches Some(l) ==> is_live(self.files@, l),
    {
        match self.lookup_exec(name, sc) {
            Some(l) => Some(l),
            None => self.find_qualified(name),
        }
    }

    fn follow_alias_exec(&self, l: SymbolId) -> (r: Option<SymbolId>)
        requires
            self.wf(),
            id_valid(self.files@, l),
        ensures
            r == self.follow_alias(l, self.symbols@.len()),
            r matches Some(m) ==> id_valid(self.files@, m),
    {
        let mut cur = l;
        let mut fuel: usize = self.symbols.len();
        loop
            invariant
                self.wf(),
                id_valid(self.files@, cur),
                self.follow_alias(l, self.symbols@.len()) == self.follow_alias(cur, fuel as nat),
            decreases fuel,
        {
            let s = &self.files[cur.file].symbols[cur.index];
            match s.kind {
                SymbolKind::Alias => {},
                _ => {
                    return Some(cur);
                },
            }
            if fuel == 0 {
                return None;
            }
            match &s.alias_target {
                Some(t) => {
                    match self.lookup_or_qualified_exec(t, ScopeRef { file: cur.file, index: s.scope }) {
                        Some(m) => {
                            cur = m;
                            fuel = fuel - 1;
                        },
                        None => {
                            return None;
                        },
                    }
                },
                None => {
                    return None;
                },
            }
        }
    }
}

impl Analysis {
    /// The names that member lookup searches through, in order: the
    /// definition a usage is typed by, then the declared supertypes.
    pub open spec fn candidates(&self, l: SymbolId) -> Seq<Seq<char>> {
        let s = self.sym(l);
        let typed = if s.kind.spec_is_usage() {
            match s.typed_by {
                Some(t) => seq![t@],
                None => Seq::empty(),
            }
        } else {
            Seq::empty()
        };
        typed + string_views(s.supertypes@)
    }

    /// Member lookup on `base`: its own member first, then depth first
    /// through the candidates. `path` holds the symbols already on the way,
    /// so a specialization cycle ends the search.
    pub open spec fn member_in(&self, member: Seq<char>, base: SymbolId, path: Seq<SymbolId>) -> Option<
        SymbolId,
    >
        decreases self.symbols@.len() + 1 - path.len(), 0int, 0int,
    {
        if path.len() > self.symbols@.len() || path.contains(base) {
            None
        } else {
            match self.spec_resolve(qualify(self.sym(base).qualified_name@, member)) {
                Some(m) => Some(m),
                None => self.member_via(member, base, path.push(base), 0),
            }
        }
    }

    pub open spec fn member_via(
        &self,
        member: Seq<char>,
        base: SymbolId,
        path: Seq<SymbolId>,
        k: int,
    ) -> Option<SymbolId>
        decreases self.symbols@.len() + 1 - path.len(), 1int, self.candidates(base).len() - k,
    {
        let c = self.candidates(base);
        if k < 0 || k >= c.len() || path.len() > self.symbols@.len() + 1 {
            None
        } else {
            match self.spec_resolve_in_scope(c[k], self.home(base)) {
                Some(t) => match self.member_in(member, t, path) {
                    Some(m) => Some(m),
                    None => self.member_via(member, base, path, k + 1),
                },
                None => self.member_via(member, base, path, k + 1),
            }
        }
    }

    /// The member named `member` of `base`, own or inherited, with an alias
    /// followed to what it stands for.
    pub open spec fn spec_resolve_member(&self, member: Seq<char>, base: SymbolId) -> Option<SymbolId> {
        match self.member_in(member, base, Seq::empty()) {
            Some(l) => self.follow_alias(l, self.symbols@.len()),
            None => None,
        }
    }

    /// Folds member lookup over `parts[k..=upto]`, starting from `cur`.
    pub open spec fn chain_from(&self, parts: Seq<Seq<char>>, upto: int, k: int, cur: SymbolId) -> Option<
        SymbolId,
    >
        decreases upto + 1 - k,
    {
        if k > upto || k >= parts.len() {
            Some(cur)
        } else {
            match self.spec_resolve_member(parts[k], cur) {
                Some(n) => self.chain_from(parts, upto, k + 1, n),
                None => None,
            }
        }
    }

    /// The element that part `index` of the chain `parts` denotes, with the
    /// chain written in scope `sc`.
    pub open spec fn spec_resolve_feature_chain(
        &self,
        parts: Seq<Seq<char>>,
        index: int,
        sc: ScopeRef,
    ) -> Option<SymbolId> {
        if parts.len() == 0 || index < 0 || index >= parts.len() {
            None
        } else {
            match self.spec_resolve_in_scope(parts[0], sc) {
                Some(f) => self.chain_from(parts, index, 1, f),
                None => None,
            }
        }
    }

    /// Exact global lookup by qualified name.
    pub fn resolve(&self, qualified_name: &str) -> (r: Option<SymbolId>)
        requires
            self.wf(),
        ensures
            r == self.spec_resolve(qualified_name@),
            r matches Some(l) ==> is_live(self.files@, l),
    {
        let q = String::from_str(qualified_name);
        self.find_qualified(&q)
    }

    fn resolve_in_scope_exec(&self, name: &String, scope: ScopeRef) -> (r: Option<SymbolId>)
        requires
            self.wf(),
        ensures
            r == self.spec_resolve_in_scope(name@, scope),
            r matches Some(l) ==> id_valid(self.files@, l),
    {
        match self.lookup_or_qualified_exec(name, scope) {
            Some(l) => self.follow_alias_exec(l),
            None => None,
        }
    }

    /// What `name`, written in `scope`, refers to: lexical lookup through
    /// declarations, imports and re-exports up the scope tree, then the name
    /// taken as qualified; an alias is followed to what it stands for.
    pub fn resolve_in_scope(&self, name: &str, scope: ScopeRef) -> (r: Option<SymbolId>)
        requires
            self.wf(),
        ensures
            r == self.spec_resolve_in_scope(name@, scope),
            r matches Some(l) ==> id_valid(self.files@, l),
    {
        let n = String::from_str(name);
        self.resolve_in_scope_exec(&n, scope)
    }
}

impl Analysis {
    /// Tries candidate `k` of `base`: resolves it from `base`'s scope and
    /// looks the member up there.
    fn try_candidate(
        &self,
        member: &String,
        base: SymbolId,
        cand: &String,
        path: &mut Vec<SymbolId>,
        k: Ghost<int>,
    ) -> (r: Option<SymbolId>)
        requires
            self.wf(),
            id_valid(self.files@, base),
            0 <= k@ < self.candidates(base).len(),
            cand@ == self.candidates(base)[k@],
            old(path)@.len() <= self.symbols@.len() + 1,
        ensures
            final(path)@ == old(path)@,
            r == match self.spec_resolve_in_scope(cand@, self.home(base)) {
                Some(t) => self.member_in(member@, t, old(path)@),
                None => None,
            },
            r is None ==> self.member_via(member@, base, old(path)@, k@) == self.member_via(
                member@,
                base,
                old(path)@,
                k@ + 1,
            ),
            r is Some ==> self.member_via(member@, base, old(path)@, k@) == r,
            r matches Some(l) ==> is_live(self.files@, l),
        decreases self.symbols@.len() + 1 - old(path)@.len(), 1int, self.candidates(base).len()
            - k@,
    {
        let home = ScopeRef { file: base.file, index: self.files[base.file].symbols[base.index].scope };
        match self.resolve_in_scope_exec(cand, home) {
            Some(t) => self.member_in_exec(member, t, path),
            None => None,
        }
    }

    fn member_in_exec(&self, member: &String, base: SymbolId, path: &mut Vec<SymbolId>) -> (r:
        Option<SymbolId>)
        requires
            self.wf(),
            id_valid(self.files@, base),
            old(path)@.len() <= self.symbols@.len() + 1,
        ensures
            final(path)@ == old(path)@,
            r == self.member_in(member@, base, old(path)@),
            r matches Some(l) ==> is_live(self.files@, l),
        decreases self.symbols@.len() + 1 - old(path)@.len(), 0int, 0int,
    {
        if path.len() > self.symbols.len() {
            return None;
        }
        let mut i: usize = 0;
        while i < path.len()
            invariant
                i <= path@.len(),
                forall|j: int| 0 <= j < i ==> path@[j] != base,
            decreases path.len() - i,
        {
            if path[i] == base {
                assert(path@.contains(base));
                return None;
            }
            i = i + 1;
        }
        assert(!path@.contains(base));
        let s = &self.files[base.file].symbols[base.index];
        let key = qualify_exec(&s.qualified_name, member);
        match self.find_qualified(&key) {
            Some(m) => {
                return Some(m);
            },
            None => {},
        }
        let ghost path_in = path@;
        path.push(base);
        let ghost path_on = path@;
        assert(self.member_in(member@, base, path_in) == self.member_via(member@, base, path_on, 0));
        let ghost cands = self.candidates(base);
        let typed = s.kind.is_usage() && s.typed_by.is_some();
        let offset: usize = if typed {
            1
        } else {
            0
        };
        assert(cands.len() == offset + s.supertypes@.len());
        if typed {
            match &s.typed_by {
                Some(t) => {
                    assert(cands[0] == t@);
                    let found = self.try_candidate(member, base, t, path, Ghost(0));
                    if found.is_some() {
                        let _ = path.pop();
                        assert(path@ =~= path_in);
                        return found;
                    }
                },
                None => {},
            }
        }
        let mut j: usize = 0;
        while j < s.supertypes.len()
            invariant
                self.wf(),
                id_valid(self.files@, base),
                *s == self.sym(base),
                cands == self.candidates(base),
                cands.len() == offset + s.supertypes@.len(),
                offset <= 1,
                offset == 1 <==> (s.kind.spec_is_usage() && s.typed_by is Some),
                path@ == path_on,
                path_on == path_in.push(base),
                path_in == old(path)@,
                path_in.len() <= self.symbols@.len(),
                j <= s.supertypes@.len(),
                self.member_in(member@, base, path_in) == self.member_via(member@, base, path_on, 0),
                self.member_via(member@, base, path_on, 0) == self.member_via(
                    member@,
                    base,
                    path_on,
                    j + offset,
                ),
            decreases s.supertypes.len() - j,
        {
            assert(cands[j + offset] == s.supertypes@[j as int]@);
            let found = self.try_candidate(member, base, &s.supertypes[j], path, Ghost(j + offset));
            if found.is_some() {
                let _ = path.pop();
                assert(path@ =~= path_in);
                return found;
            }
            j = j + 1;
        }
        let _ = path.pop();
        assert(path@ =~= path_in);
        None
    }

    /// The member named `member` of `base`: `base`'s own member if there is
    /// one; else, for a usage, a member of the definition it is typed by;
    /// else a member found depth first through its supertypes in declaration
    /// order. A specialization cycle ends the search without a result, and
    /// an alias found is followed to what it stands for.
    pub fn resolve_member(&self, member: &str, base: SymbolId) -> (r: Option<SymbolId>)
        requires
            self.wf(),
            id_valid(self.files@, base),
        ensures
            r == self.spec_resolve_member(member@, base),
            r matches Some(l) ==> id_valid(self.files@, l),
    {
        let m = String::from_str(member);
        self.resolve_member_exec(&m, base)
    }

    fn resolve_member_exec(&self, member: &String, base: SymbolId) -> (r: Option<SymbolId>)
        requires
            self.wf(),
            id_valid(self.files@, base),
        ensures
            r == self.spec_resolve_member(member@, base),
            r matches Some(l) ==> id_valid(self.files@, l),
    {
        let mut path: Vec<SymbolId> = Vec::new();
        match self.member_in_exec(member, base, &mut path) {
            Some(l) => self.follow_alias_exec(l),
            None => None,
        }
    }

    /// Resolves `parts[0]` in `scope`, then each following part up to
    /// `index` as a member of the previous one; stops at the first part that
    /// does not resolve.
    pub fn resolve_feature_chain(&self, parts: &Vec<String>, index: usize, scope: ScopeRef) -> (r:
        Option<SymbolId>)
        requires
            self.wf(),
        ensures
            r == self.spec_resolve_feature_chain(string_views(parts@), index as int, scope),
            r matches Some(l) ==> id_valid(self.files@, l),
    {
        let ghost ps = string_views(parts@);
        if parts.len() == 0 || index >= parts.len() {
            return None;
        }
        let mut cur = match self.resolve_in_scope_exec(&parts[0], scope) {
            Some(f) => f,
            None => {
                return None;
            },
        };
        let mut k: usize = 1;
        while k <= index
            invariant
                self.wf(),
                index < parts@.len(),
                parts@.len() <= usize::MAX,
                ps == string_views(parts@),
                1 <= k <= index + 1,
                id_valid(self.files@, cur),
                self.spec_resolve_feature_chain(ps, index as int, scope) == self.chain_from(
                    ps,
                    index as int,
                    k as int,
                    cur,
                ),
            decreases index + 1 - k,
        {
            match self.resolve_member_exec(&parts[k], cur) {
                Some(n) => {
                    cur = n;
                },
                None => {
                    return None;
                },
            }
            k = k + 1;
        }
        Some(cur)
    }
}

impl Analysis {
    /// Every live symbol, in file order then declaration order.
    pub fn all_symbols(&self) -> (r: &Vec<SymbolId>)
        requires
            self.wf(),
        ensures
            r@ == crate::analysis::live_symbols(self.files@),
            forall|k: int| 0 <= k < r@.len() ==> is_live(self.files@, #[trigger] r@[k]),
    {
        &self.symbols
    }

    /// The qualified-name collisions: each symbol that lost its name to a
    /// later declaration.
    pub fn diagnostics(&self) -> (r: &Vec<crate::analysis::Diagnostic>)
        requires
            self.wf(),
        ensures
            r@.map_values(|d: crate::analysis::Diagnostic| d.shadowed)
                == crate::analysis::shadowed_symbols(self.files@),
    {
        &self.diagnostics
    }

    /// The scope in which symbol `id` is declared.
    pub fn declaring_scope(&self, id: SymbolId) -> (r: ScopeRef)
        requires
            id_valid(self.files@, id),
        ensures
            r == self.home(id),
    {
        ScopeRef { file: id.file, index: self.files[id.file].symbols[id.index].scope }
    }

    /// The scope of symbol `id`'s own body, if it has one.
    pub fn body_scope(&self, id: SymbolId) -> (r: Option<ScopeRef>)
        requires
            id_valid(self.files@, id),
        ensures
            r == match self.sym(id).body {
                Some(b) => Some(ScopeRef { file: id.file, index: b }),
                None => None,
            },
    {
        match self.files[id.file].symbols[id.index].body {
            Some(b) => Some(ScopeRef { file: id.file, index: b }),
            None => None,
        }
    }

    /// The root scope of file `file`, if the snapshot holds it.
    pub fn file_root(&self, file: crate::model::FileId) -> (r: Option<ScopeRef>)
        ensures
            match r {
                Some(sc) => sc.index == 0 && sc.file < self.files@.len() && self.files@[sc.file as int].id
                    == file,
                None => forall|i: int|
                    0 <= i < self.files@.len() ==> #[trigger] self.files@[i].id != file,
            },
    {
        let mut i: usize = 0;
        while i < self.files.len()
            invariant
                i <= self.files@.len(),
                forall|j: int| 0 <= j < i ==> #[trigger] self.files@[j].id != file,
            decreases self.files.len() - i,
        {
            if self.files[i].id == file {
                return Some(ScopeRef { file: i, index: 0 });
            }
            i = i + 1;
        }
        None
    }

    proof fn lemma_first_qn_finds(&self, k: int, j: int)
        requires
            self.wf(),
            0 <= j <= k < self.symbols@.len(),
        ensures
            self.first_qn(self.sym(self.symbols@[k]).qualified_name@, j) == Some(self.symbols@[k]),
        decreases k - j,
    {
        let l = self.symbols@[k];
        let m = self.symbols@[j];
        assert(is_live(self.files@, l));
        assert(is_live(self.files@, m));
        if self.sym(m).qualified_name@ == self.sym(l).qualified_name@ {
            if m != l {
                if crate::analysis::id_after(m, l) {
                    assert(sym_at(self.files@, m).qualified_name@ != sym_at(self.files@, l).qualified_name@);
                } else {
                    assert(crate::analysis::id_after(l, m));
                    assert(sym_at(self.files@, l).qualified_name@ != sym_at(self.files@, m).qualified_name@);
                }
            }
        } else {
            self.lemma_first_qn_finds(k, j + 1);
        }
    }
}

/// Every symbol of the merged view is found again by its qualified name.
pub proof fn lemma_qualified_round_trip(a: &Analysis, k: int)
    requires
        a.wf(),
        0 <= k < a.symbols@.len(),
    ensures
        a.spec_resolve(a.sym(a.symbols@[k]).qualified_name@) == Some(a.symbols@[k]),
{
    a.lemma_first_qn_finds(k, 0);
}

/// No two distinct symbols of the merged view share a qualified name.
pub proof fn lemma_qualified_names_unique(a: &Analysis, i: int, j: int)
    requires
        a.wf(),
        0 <= i < a.symbols@.len(),
        0 <= j < a.symbols@.len(),
        a.symbols@[i] != a.symbols@[j],
    ensures
        a.sym(a.symbols@[i]).qualified_name@ != a.sym(a.symbols@[j]).qualified_name@,
{
    let l = a.symbols@[i];
    let m = a.symbols@[j];
    assert(is_live(a.files@, l));
    assert(is_live(a.files@, m));
    if crate::analysis::id_after(m, l) {
        assert(sym_at(a.files@, m).qualified_name@ != sym_at(a.files@, l).qualified_name@);
    } else {
        assert(crate::analysis::id_after(l, m));
        assert(sym_at(a.files@, l).qualified_name@ != sym_at(a.files@, m).qualified_name@);
    }
}

} // verus!
