//! Queries over the reference index: which references point at a target,
//! which symbols use it, what a file references, and what lies at a
//! position. Targets are resolved at query time, in each reference's scope.
use vstd::prelude::*;
use crate::analysis::{
    Analysis, RefId, SymbolId, file_refs, files_wf, id_valid, is_live, ref_at, ref_valid,
    refs_of_file, refs_upto, symbol_refs,
};
use crate::model::{FileId, Position, TypeRef, span_contains};
use crate::resolve::{ScopeRef, string_views};

verus! {

impl Analysis {
    /// The scope a reference is resolved in: the scope its symbol is
    /// declared in.
    pub open spec fn ref_home(&self, r: RefId) -> ScopeRef {
        ScopeRef { file: r.file, index: self.files@[r.file as int].symbols@[r.symbol as int].scope }
    }

    /// What a reference denotes: the part of its chain that it is, or its
    /// target name.
    pub open spec fn spec_resolve_reference(&self, r: RefId) -> Option<SymbolId> {
        let t = ref_at(self.files@, r);
        match t.chain {
            Some(c) => self.spec_resolve_feature_chain(
                string_views(c.chain_parts@),
                c.chain_index as int,
                self.ref_home(r),
            ),
            None => self.spec_resolve_in_scope(t.target@, self.ref_home(r)),
        }
    }

    /// A reference points at `q` when its text is `q` or it resolves to the
    /// symbol whose qualified name is `q`.
    pub open spec fn points_at(&self, r: RefId, q: Seq<char>) -> bool {
        ref_at(self.files@, r).target@ == q || match self.spec_resolve_reference(r) {
            Some(l) => self.sym(l).qualified_name@ == q,
            None => false,
        }
    }

    /// The references of `s` that point at `q`, in order.
    pub open spec fn refs_pointing(&self, s: Seq<RefId>, q: Seq<char>) -> Seq<RefId>
        decreases s.len(),
    {
        if s.len() == 0 {
            s
        } else {
            let rest = self.refs_pointing(s.drop_last(), q);
            if self.points_at(s.last(), q) {
                rest.push(s.last())
            } else {
                rest
            }
        }
    }

    /// The qualified name of the symbol that holds a reference.
    pub open spec fn source_name(&self, r: RefId) -> Seq<char> {
        self.files@[r.file as int].symbols@[r.symbol as int].qualified_name@
    }

    /// The references of `s` found in file `id`, in order.
    pub open spec fn refs_in(&self, s: Seq<RefId>, id: FileId) -> Seq<RefId>
        decreases s.len(),
    {
        if s.len() == 0 {
            s
        } else {
            let rest = self.refs_in(s.drop_last(), id);
            if self.files@[s.last().file as int].id == id {
                rest.push(s.last())
            } else {
                rest
            }
        }
    }

    /// The first reference of `s` in file `id` whose span holds `p`.
    pub open spec fn first_ref_at(&self, s: Seq<RefId>, id: FileId, p: Position, k: int) -> Option<RefId>
        decreases s.len() - k,
    {
        if k < 0 || k >= s.len() {
            None
        } else if self.files@[s[k].file as int].id == id && span_contains(
            ref_at(self.files@, s[k]).span,
            p,
        ) {
            Some(s[k])
        } else {
            self.first_ref_at(s, id, p, k + 1)
        }
    }

    /// The name occurrence `r` stands for.
    pub fn reference(&self, r: RefId) -> (t: &TypeRef)
        requires
            ref_valid(self.files@, r),
        ensures
            *t == ref_at(self.files@, r),
    {
        &self.files[r.file].symbols[r.symbol].type_refs[r.index]
    }

    /// The scope in which reference `r` is resolved.
    pub fn reference_scope(&self, r: RefId) -> (sc: ScopeRef)
        requires
            ref_valid(self.files@, r),
        ensures
            sc == self.ref_home(r),
    {
        ScopeRef { file: r.file, index: self.files[r.file].symbols[r.symbol].scope }
    }

    /// Resolves reference `r` from its own scope, following its chain.
    pub fn resolve_reference(&self, r: RefId) -> (l: Option<SymbolId>)
        requires
            self.wf(),
            ref_valid(self.files@, r),
        ensures
            l == self.spec_resolve_reference(r),
            l matches Some(m) ==> id_valid(self.files@, m),
    {
        let t = &self.files[r.file].symbols[r.symbol].type_refs[r.index];
        let home = ScopeRef { file: r.file, index: self.files[r.file].symbols[r.symbol].scope };
        match &t.chain {
            Some(c) => {
                self.resolve_feature_chain(&c.chain_parts, c.chain_index, home)
            },
            None => self.resolve_in_scope(t.target.as_str(), home),
        }
    }

    fn points_at_exec(&self, r: RefId, q: &String) -> (b: bool)
        requires
            self.wf(),
            ref_valid(self.files@, r),
        ensures
            b == self.points_at(r, q@),
    {
        if self.files[r.file].symbols[r.symbol].type_refs[r.index].target == *q {
            return true;
        }
        match self.resolve_reference(r) {
            Some(l) => self.files[l.file].symbols[l.index].qualified_name == *q,
            None => false,
        }
    }

    /// Every reference that points at `target`, by its text or by what it
    /// resolves to, in index order.
    pub fn get_references(&self, target: &str) -> (r: Vec<RefId>)
        requires
            self.wf(),
        ensures
            r@ == self.refs_pointing(self.references@, target@),
    {
        let q = String::from_str(target);
        let mut out: Vec<RefId> = Vec::new();
        let mut k: usize = 0;
        while k < self.references.len()
            invariant
                self.wf(),
                q@ == target@,
                k <= self.references@.len(),
                out@ == self.refs_pointing(self.references@.subrange(0, k as int), target@),
            decreases self.references.len() - k,
        {
            let r = self.references[k];
            assert(ref_valid(self.files@, self.references@[k as int]));
            assert(self.references@.subrange(0, k as int + 1).drop_last() =~= self.references@.subrange(
                0,
                k as int,
            ));
            if self.points_at_exec(r, &q) {
                out.push(r);
            }
            k = k + 1;
        }
        assert(self.references@.subrange(0, k as int) =~= self.references@);
        out
    }

    /// The qualified names of the symbols whose declarations hold a
    /// reference to `target`, one per such reference, in index order.
    pub fn get_sources(&self, target: &str) -> (r: Vec<String>)
        requires
            self.wf(),
        ensures
            string_views(r@) == self.refs_pointing(self.references@, target@).map_values(
                |x: RefId| self.source_name(x),
            ),
    {
        let refs = self.get_references(target);
        let ghost rs = refs@;
        let mut out: Vec<String> = Vec::new();
        let mut k: usize = 0;
        while k < refs.len()
            invariant
                self.wf(),
                rs == refs@,
                rs == self.refs_pointing(self.references@, target@),
                k <= rs.len(),
                string_views(out@) == rs.subrange(0, k as int).map_values(
                    |x: RefId| self.source_name(x),
                ),
            decreases refs.len() - k,
        {
            let r = refs[k];
            proof {
                self.lemma_pointing_valid(self.references@, target@, k as int);
            }
            let name = self.files[r.file].symbols[r.symbol].qualified_name.clone();
            assert(name@ == self.source_name(rs[k as int]));
            let ghost before = out@;
            out.push(name);
            assert(string_views(out@) =~= string_views(before).push(name@));
            assert(rs.subrange(0, k as int + 1).map_values(|x: RefId| self.source_name(x))
                =~= rs.subrange(0, k as int).map_values(|x: RefId| self.source_name(x)).push(
                self.source_name(rs[k as int]),
            ));
            k = k + 1;
        }
        assert(rs.subrange(0, k as int) =~= rs);
        out
    }

    /// Every reference found in file `file`, in index order.
    pub fn get_references_in_file(&self, file: FileId) -> (r: Vec<RefId>)
        requires
            self.wf(),
        ensures
            r@ == self.refs_in(self.references@, file),
    {
        let mut out: Vec<RefId> = Vec::new();
        let mut k: usize = 0;
        while k < self.references.len()
            invariant
                self.wf(),
                k <= self.references@.len(),
                out@ == self.refs_in(self.references@.subrange(0, k as int), file),
            decreases self.references.len() - k,
        {
            let r = self.references[k];
            assert(ref_valid(self.files@, self.references@[k as int]));
            assert(self.references@.subrange(0, k as int + 1).drop_last() =~= self.references@.subrange(
                0,
                k as int,
            ));
            if self.files[r.file].id == file {
                out.push(r);
            }
            k = k + 1;
        }
        assert(self.references@.subrange(0, k as int) =~= self.references@);
        out
    }

    /// The first reference of file `file` whose span holds `position`.
    pub fn get_reference_at_position(&self, file: FileId, position: Position) -> (r: Option<RefId>)
        requires
            self.wf(),
        ensures
            r == self.first_ref_at(self.references@, file, position, 0),
            r matches Some(x) ==> ref_valid(self.files@, x),
    {
        let mut k: usize = 0;
        while k < self.references.len()
            invariant
                self.wf(),
                k <= self.references@.len(),
                self.first_ref_at(self.references@, file, position, 0) == self.first_ref_at(
                    self.references@,
                    file,
                    position,
                    k as int,
                ),
            decreases self.references.len() - k,
        {
            let r = self.references[k];
            assert(ref_valid(self.files@, self.references@[k as int]));
            if self.files[r.file].id == file && self.files[r.file].symbols[r.symbol].type_refs[r.index].span.contains(
                position,
            ) {
                return Some(r);
            }
            k = k + 1;
        }
        None
    }

    /// The reference at a position together with the scope it is resolved
    /// in and its chain, for callers that resolve it themselves.
    pub fn get_full_reference_at_position(&self, file: FileId, position: Position) -> (r: Option<
        (RefId, ScopeRef),
    >)
        requires
            self.wf(),
        ensures
            match r {
                Some((x, sc)) => self.first_ref_at(self.references@, file, position, 0) == Some(x)
                    && sc == self.ref_home(x),
                None => self.first_ref_at(self.references@, file, position, 0) is None,
            },
    {
        match self.get_reference_at_position(file, position) {
            Some(x) => Some((x, self.reference_scope(x))),
            None => None,
        }
    }

    proof fn lemma_pointing_valid(&self, s: Seq<RefId>, q: Seq<char>, k: int)
        requires
            forall|j: int| 0 <= j < s.len() ==> ref_valid(self.files@, #[trigger] s[j]),
            0 <= k < self.refs_pointing(s, q).len(),
        ensures
            ref_valid(self.files@, self.refs_pointing(s, q)[k]),
        decreases s.len(),
    {
        let rest = self.refs_pointing(s.drop_last(), q);
        assert forall|j: int| 0 <= j < s.drop_last().len() implies ref_valid(
            self.files@,
            #[trigger] s.drop_last()[j],
        ) by {
            assert(s.drop_last()[j] == s[j]);
        }
        if k < rest.len() {
            self.lemma_pointing_valid(s.drop_last(), q, k);
        } else {
            assert(s.last() == s[s.len() - 1]);
        }
    }
}

impl Analysis {
    proof fn lemma_refs_in_concat(&self, a: Seq<RefId>, b: Seq<RefId>, id: FileId)
        ensures
            self.refs_in(a + b, id) == self.refs_in(a, id) + self.refs_in(b, id),
        decreases b.len(),
    {
        if b.len() == 0 {
            assert(a + b =~= a);
            assert(self.refs_in(a, id) + self.refs_in(b, id) =~= self.refs_in(a, id));
        } else {
            self.lemma_refs_in_concat(a, b.drop_last(), id);
            assert((a + b).drop_last() =~= a + b.drop_last());
            assert((a + b).last() == b.last());
            if self.files@[b.last().file as int].id == id {
                assert(self.refs_in(a, id) + self.refs_in(b.drop_last(), id).push(b.last())
                    =~= (self.refs_in(a, id) + self.refs_in(b.drop_last(), id)).push(b.last()));
            }
        }
    }

    /// A run of references all from file position `j` is kept whole when
    /// that file has id `id`, and dropped otherwise.
    proof fn lemma_refs_in_one_file(&self, s: Seq<RefId>, j: int, id: FileId)
        requires
            forall|k: int| 0 <= k < s.len() ==> (#[trigger] s[k]).file == j,
        ensures
            self.refs_in(s, id) == if self.files@[j].id == id {
                s
            } else {
                Seq::empty()
            },
        decreases s.len(),
    {
        if s.len() > 0 {
            assert forall|k: int| 0 <= k < s.drop_last().len() implies (#[trigger] s.drop_last()[k]).file
                == j by {
                assert(s.drop_last()[k] == s[k]);
            }
            self.lemma_refs_in_one_file(s.drop_last(), j, id);
            assert(s.last() == s[s.len() - 1]);
            assert(s.drop_last().push(s.last()) =~= s);
        }
    }

    proof fn lemma_file_refs_in_file(&self, j: int, n: int)
        requires
            0 <= j <= usize::MAX,
        ensures
            forall|k: int|
                0 <= k < file_refs(self.files@, j, n).len() ==> (#[trigger] file_refs(
                    self.files@,
                    j,
                    n,
                )[k]).file == j,
        decreases n,
    {
        if n > 0 {
            self.lemma_file_refs_in_file(j, n - 1);
            let a = file_refs(self.files@, j, n - 1);
            let b = symbol_refs(self.files@, j, n - 1);
            assert forall|k: int| 0 <= k < (a + b).len() implies (#[trigger] (a + b)[k]).file == j by {
                if k >= a.len() {
                    assert((a + b)[k] == b[k - a.len()]);
                } else {
                    assert((a + b)[k] == a[k]);
                }
            }
        }
    }

    proof fn lemma_refs_in_upto(&self, m: int, i: int)
        requires
            files_wf(self.files@),
            self.files@.len() <= usize::MAX,
            0 <= i < self.files@.len(),
            m <= self.files@.len(),
        ensures
            self.refs_in(refs_upto(self.files@, m), self.files@[i].id) == if i < m {
                refs_of_file(self.files@, i)
            } else {
                Seq::empty()
            },
        decreases m,
    {
        let id = self.files@[i].id;
        if m <= 0 {
        } else {
            self.lemma_refs_in_upto(m - 1, i);
            let a = refs_upto(self.files@, m - 1);
            let b = refs_of_file(self.files@, m - 1);
            self.lemma_refs_in_concat(a, b, id);
            self.lemma_file_refs_in_file(m - 1, self.files@[m - 1].symbols@.len() as int);
            self.lemma_refs_in_one_file(b, m - 1, id);
            if m - 1 != i {
                if m - 1 < i {
                    assert(self.files@[m - 1].id != self.files@[i].id);
                } else {
                    assert(self.files@[i].id != self.files@[m - 1].id);
                }
                assert(self.refs_in(a, id) + Seq::<RefId>::empty() =~= self.refs_in(a, id));
            } else {
                assert(Seq::<RefId>::empty() + b =~= b);
            }
        }
    }
}

/// The references that the index attributes to a file are exactly those of
/// the file's current contribution, in order: nothing from an earlier
/// version of the file and nothing twice.
pub proof fn lemma_index_matches_file(a: &Analysis, i: int)
    requires
        a.wf(),
        0 <= i < a.files@.len(),
    ensures
        a.refs_in(a.references@, a.files@[i].id) == refs_of_file(a.files@, i),
{
    a.lemma_refs_in_upto(a.files@.len() as int, i);
}

} // verus!
