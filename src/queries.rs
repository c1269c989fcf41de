//! The query surface used by editor features: what is at a position, where
//! a name is defined, who refers to a symbol, the edits of a rename, and
//! workspace-wide symbol search. Everything is expressed through the
//! resolver and the reference index.
use vstd::prelude::*;
use crate::analysis::{Analysis, RefId, SymbolId, id_valid, is_live, ref_at, ref_valid};
use crate::model::{FileId, Position, Span, span_contains};
use crate::diagram::{extract_parent, parent_of};

verus! {

/// A span in a file.
#[derive(Clone, Copy, Debug, PartialEq, Eq, Structural)]
pub struct Location {
    pub file: FileId,
    pub span: Span,
}

/// Replace the text at `span` of `file` by `new_text`.
#[derive(Clone, Debug)]
pub struct TextEdit {
    pub file: FileId,
    pub span: Span,
    pub new_text: String,
}

/// `q` occurs in `s` starting at `i`.
pub open spec fn occurs_at(s: Seq<char>, q: Seq<char>, i: int) -> bool {
    0 <= i && i + q.len() <= s.len() && s.subrange(i, i + q.len()) == q
}

/// `q` occurs somewhere in `s`.
pub open spec fn occurs_in(s: Seq<char>, q: Seq<char>) -> bool {
    exists|i: int| occurs_at(s, q, i)
}

fn occurs_at_exec(s: &str, q: &str, i: usize, sl: usize, ql: usize) -> (r: bool)
    requires
        sl == s@.len(),
        ql == q@.len(),
        i + ql <= sl,
    ensures
        r == occurs_at(s@, q@, i as int),
{
    let mut j: usize = 0;
    while j < ql
        invariant
            sl == s@.len(),
            ql == q@.len(),
            i + ql <= sl,
            j <= ql,
            forall|t: int| 0 <= t < j ==> s@[i + t] == q@[t],
        decreases ql - j,
    {
        if s.get_char(i + j) != q.get_char(j) {
            assert(s@.subrange(i as int, i + ql)[j as int] != q@[j as int]);
            return false;
        }
        j = j + 1;
    }
    assert(s@.subrange(i as int, i + ql) =~= q@);
    true
}

fn occurs_in_exec(s: &str, q: &str) -> (r: bool)
    ensures
        r == occurs_in(s@, q@),
{
    let sl = s.unicode_len();
    let ql = q.unicode_len();
    if ql > sl {
        assert forall|i: int| !occurs_at(s@, q@, i) by {}
        return false;
    }
    if ql == 0 {
        assert(occurs_at(s@, q@, 0)) by {
            assert(s@.subrange(0, 0) =~= q@);
        }
        return true;
    }
    let mut i: usize = 0;
    while i <= sl - ql
        invariant
            sl == s@.len(),
            ql == q@.len(),
            1 <= ql <= sl,
            i <= sl - ql + 1,
            forall|t: int| 0 <= t < i ==> !occurs_at(s@, q@, t),
        decreases sl - ql + 1 - i,
    {
        if occurs_at_exec(s, q, i, sl, ql) {
            return true;
        }
        i = i + 1;
    }
    assert forall|t: int| !occurs_at(s@, q@, t) by {
        if 0 <= t && t < i {
        }
    }
    false
}

impl Analysis {
    /// The first live symbol of file `file`, from position `k` of the
    /// merged list on, whose span holds `p`.
    pub open spec fn first_symbol_at(&self, file: FileId, p: Position, k: int) -> Option<SymbolId>
        decreases self.symbols@.len() - k,
    {
        if k < 0 || k >= self.symbols@.len() {
            None
        } else if self.files@[self.symbols@[k].file as int].id == file && span_contains(
            self.sym(self.symbols@[k]).span,
            p,
        ) {
            Some(self.symbols@[k])
        } else {
            self.first_symbol_at(file, p, k + 1)
        }
    }

    /// What a position denotes: the target of the reference there, else
    /// the symbol declared there.
    pub open spec fn spec_goto_definition(&self, file: FileId, p: Position) -> Option<SymbolId> {
        match self.first_ref_at(self.references@, file, p, 0) {
            Some(r) => self.spec_resolve_reference(r),
            None => self.first_symbol_at(file, p, 0),
        }
    }

    /// The references of `s` that resolve to `target`, in order.
    pub open spec fn refs_to(&self, s: Seq<RefId>, target: SymbolId) -> Seq<RefId>
        decreases s.len(),
    {
        if s.len() == 0 {
            s
        } else {
            let rest = self.refs_to(s.drop_last(), target);
            if self.spec_resolve_reference(s.last()) == Some(target) {
                rest.push(s.last())
            } else {
                rest
            }
        }
    }

    pub open spec fn ref_location(&self, r: RefId) -> Location {
        Location { file: self.files@[r.file as int].id, span: ref_at(self.files@, r).span }
    }

    pub open spec fn decl_location(&self, l: SymbolId) -> Location {
        Location { file: self.files@[l.file as int].id, span: self.sym(l).span }
    }

    /// The locations that refer to `target`, its declaration first when
    /// asked for.
    pub open spec fn locations_of(&self, target: SymbolId, include_declaration: bool) -> Seq<
        Location,
    > {
        let decl = if include_declaration {
            seq![self.decl_location(target)]
        } else {
            Seq::empty()
        };
        decl + self.refs_to(self.references@, target).map_values(|r: RefId| self.ref_location(r))
    }

    /// The live symbols of `s` whose simple name contains `q`, in order.
    pub open spec fn matching(&self, s: Seq<SymbolId>, q: Seq<char>) -> Seq<SymbolId>
        decreases s.len(),
    {
        if s.len() == 0 {
            s
        } else {
            let rest = self.matching(s.drop_last(), q);
            if occurs_in(self.sym(s.last()).name@, q) {
                rest.push(s.last())
            } else {
                rest
            }
        }
    }

    /// The first live symbol of file `file` whose span holds `position`.
    pub fn symbol_at(&self, file: FileId, position: Position) -> (r: Option<SymbolId>)
        requires
            self.wf(),
        ensures
            r == self.first_symbol_at(file, position, 0),
            r matches Some(l) ==> id_valid(self.files@, l),
    {
        let mut k: usize = 0;
        while k < self.symbols.len()
            invariant
                self.wf(),
                k <= self.symbols@.len(),
                self.first_symbol_at(file, position, 0) == self.first_symbol_at(file, position, k as int),
            decreases self.symbols.len() - k,
        {
            let id = self.symbols[k];
            assert(is_live(self.files@, self.symbols@[k as int]));
            if self.files[id.file].id == file && self.files[id.file].symbols[id.index].span.contains(
                position,
            ) {
                return Some(id);
            }
            k = k + 1;
        }
        None
    }

    /// Where the name at a position is defined: the resolved target of the
    /// reference there, or the symbol declared there.
    pub fn get_definition(&self, file: FileId, position: Position) -> (r: Option<SymbolId>)
        requires
            self.wf(),
        ensures
            r == self.spec_goto_definition(file, position),
            r matches Some(l) ==> id_valid(self.files@, l),
    {
        match self.get_reference_at_position(file, position) {
            Some(x) => self.resolve_reference(x),
            None => self.symbol_at(file, position),
        }
    }

    /// The locations of every reference that resolves to `target`, in index
    /// order.
    pub fn references_to(&self, target: SymbolId) -> (r: Vec<Location>)
        requires
            self.wf(),
        ensures
            r@ == self.refs_to(self.references@, target).map_values(|x: RefId| self.ref_location(x)),
    {
        let mut out: Vec<Location> = Vec::new();
        let mut k: usize = 0;
        while k < self.references.len()
            invariant
                self.wf(),
                k <= self.references@.len(),
                out@ == self.refs_to(self.references@.subrange(0, k as int), target).map_values(
                    |x: RefId| self.ref_location(x),
                ),
            decreases self.references.len() - k,
        {
            let r = self.references[k];
            assert(ref_valid(self.files@, self.references@[k as int]));
            let ghost pre = self.references@.subrange(0, k as int);
            assert(self.references@.subrange(0, k as int + 1).drop_last() =~= pre);
            let ghost before = out@;
            if self.resolve_reference(r) == Some(target) {
                let loc = Location {
                    file: self.files[r.file].id,
                    span: self.files[r.file].symbols[r.symbol].type_refs[r.index].span,
                };
                out.push(loc);
                assert(self.refs_to(pre.push(r), target) == self.refs_to(pre, target).push(r)) by {
                    assert(pre.push(r).drop_last() =~= pre);
                }
                assert(out@ =~= self.refs_to(pre, target).push(r).map_values(
                    |x: RefId| self.ref_location(x),
                ));
            }
            assert(self.references@.subrange(0, k as int + 1) =~= pre.push(r));
            k = k + 1;
        }
        assert(self.references@.subrange(0, k as int) =~= self.references@);
        out
    }

    /// Every location that refers to what the position denotes, with its
    /// declaration first when `include_declaration` is set; empty when the
    /// position denotes nothing.
    pub fn find_references(&self, file: FileId, position: Position, include_declaration: bool) -> (r:
        Vec<Location>)
        requires
            self.wf(),
        ensures
            r@ == match self.spec_goto_definition(file, position) {
                Some(t) => self.locations_of(t, include_declaration),
                None => Seq::empty(),
            },
    {
        match self.get_definition(file, position) {
            Some(t) => {
                let refs = self.references_to(t);
                let mut out: Vec<Location> = Vec::new();
                if include_declaration {
                    out.push(
                        Location {
                            file: self.files[t.file].id,
                            span: self.files[t.file].symbols[t.index].span,
                        },
                    );
                }
                let ghost head = out@;
                let mut k: usize = 0;
                while k < refs.len()
                    invariant
                        k <= refs@.len(),
                        out@ == head + refs@.subrange(0, k as int),
                    decreases refs.len() - k,
                {
                    out.push(refs[k]);
                    assert(head + refs@.subrange(0, k as int + 1) =~= (head + refs@.subrange(
                        0,
                        k as int,
                    )).push(refs@[k as int]));
                    k = k + 1;
                }
                assert(refs@.subrange(0, k as int) =~= refs@);
                proof {
                    if include_declaration {
                        assert(head =~= seq![self.decl_location(t)]);
                    } else {
                        assert(head =~= Seq::<Location>::empty());
                    }
                }
                out
            },
            None => Vec::new(),
        }
    }

    /// The edits that rename what a position denotes to `new_name`: its
    /// declaration and every reference to it. None when the position
    /// denotes nothing.
    pub fn get_rename_edits(&self, file: FileId, position: Position, new_name: &str) -> (r: Option<
        Vec<TextEdit>,
    >)
        requires
            self.wf(),
        ensures
            r is Some <==> self.spec_goto_definition(file, position) is Some,
            r matches Some(edits) ==> edits@.len() == self.locations_of(
                self.spec_goto_definition(file, position)->0,
                true,
            ).len() && forall|i: int|
                0 <= i < edits@.len() ==> (#[trigger] edits@[i]).new_text@ == new_name@ && (Location {
                    file: edits@[i].file,
                    span: edits@[i].span,
                }) == self.locations_of(self.spec_goto_definition(file, position)->0, true)[i],
    {
        if self.get_definition(file, position).is_none() {
            return None;
        }
        let locs = self.find_references(file, position, true);
        let mut edits: Vec<TextEdit> = Vec::new();
        let mut k: usize = 0;
        while k < locs.len()
            invariant
                k <= locs@.len(),
                edits@.len() == k,
                forall|i: int|
                    0 <= i < k ==> (#[trigger] edits@[i]).new_text@ == new_name@ && (Location {
                        file: edits@[i].file,
                        span: edits@[i].span,
                    }) == locs@[i],
            decreases locs.len() - k,
        {
            let loc = locs[k];
            edits.push(TextEdit { file: loc.file, span: loc.span, new_text: String::from_str(new_name) });
            k = k + 1;
        }
        Some(edits)
    }

    /// The live symbols whose simple name contains `query`; all of them
    /// for an empty query.
    pub fn get_workspace_symbols(&self, query: &str) -> (r: Vec<SymbolId>)
        requires
            self.wf(),
        ensures
            r@ == self.matching(self.symbols@, query@),
    {
        let mut out: Vec<SymbolId> = Vec::new();
        let mut k: usize = 0;
        while k < self.symbols.len()
            invariant
                self.wf(),
                k <= self.symbols@.len(),
                out@ == self.matching(self.symbols@.subrange(0, k as int), query@),
            decreases self.symbols.len() - k,
        {
            let id = self.symbols[k];
            assert(is_live(self.files@, self.symbols@[k as int]));
            assert(self.symbols@.subrange(0, k as int + 1).drop_last() =~= self.symbols@.subrange(
                0,
                k as int,
            ));
            if occurs_in_exec(self.files[id.file].symbols[id.index].name.as_str(), query) {
                out.push(id);
            }
            k = k + 1;
        }
        assert(self.symbols@.subrange(0, k as int) =~= self.symbols@);
        out
    }
}

/// A lens above a declaration: how many references point at it.
#[derive(Clone, Copy, Debug, PartialEq, Eq, Structural)]
pub struct ReferenceLens {
    pub symbol: SymbolId,
    pub span: Span,
    pub count: usize,
}

/// A one-character range at `p`, for a name known only by its text.
pub open spec fn word_span(p: Position) -> Span {
    Span {
        start: p,
        end: Position {
            line: p.line,
            column: if p.column < u32::MAX {
                (p.column + 1) as u32
            } else {
                p.column
            },
        },
    }
}

impl Analysis {
    /// What a position shows: the qualified name and span of what the
    /// reference there resolves to, or its bare text when it resolves to
    /// nothing; else the symbol declared there.
    pub open spec fn spec_symbol_at_position(&self, file: FileId, p: Position) -> Option<
        (Seq<char>, Span),
    > {
        match self.first_ref_at(self.references@, file, p, 0) {
            Some(r) => match self.spec_resolve_reference(r) {
                Some(l) => Some((self.sym(l).qualified_name@, self.sym(l).span)),
                None => Some((ref_at(self.files@, r).target@, word_span(p))),
            },
            None => match self.first_symbol_at(file, p, 0) {
                Some(l) => Some((self.sym(l).qualified_name@, self.sym(l).span)),
                None => None,
            },
        }
    }

    /// The qualified name and span of what is at a position of file
    /// `file`.
    pub fn find_symbol_at_position(&self, file: FileId, position: Position) -> (r: Option<
        (String, Span),
    >)
        requires
            self.wf(),
        ensures
            match self.spec_symbol_at_position(file, position) {
                Some((name, sp)) => r matches Some((n, s)) && n@ == name && s == sp,
                None => r is None,
            },
    {
        match self.get_reference_at_position(file, position) {
            Some(x) => {
                match self.resolve_reference(x) {
                    Some(l) => {
                        let s = &self.files[l.file].symbols[l.index];
                        Some((s.qualified_name.clone(), s.span))
                    },
                    None => {
                        let t = &self.files[x.file].symbols[x.symbol].type_refs[x.index];
                        let end_column = if position.column < u32::MAX {
                            position.column + 1
                        } else {
                            position.column
                        };
                        Some(
                            (
                                t.target.clone(),
                                Span {
                                    start: position,
                                    end: Position { line: position.line, column: end_column },
                                },
                            ),
                        )
                    },
                }
            },
            None => match self.symbol_at(file, position) {
                Some(l) => {
                    let s = &self.files[l.file].symbols[l.index];
                    Some((s.qualified_name.clone(), s.span))
                },
                None => None,
            },
        }
    }

    /// The lenses of `ids`: one per package or definition of file `file`
    /// that at least one reference points at, with that count.
    pub open spec fn lenses(&self, ids: Seq<SymbolId>, file: FileId) -> Seq<ReferenceLens>
        decreases ids.len(),
    {
        if ids.len() == 0 {
            Seq::empty()
        } else {
            let rest = self.lenses(ids.drop_last(), file);
            let l = ids.last();
            let s = self.sym(l);
            let count = self.refs_pointing(self.references@, s.qualified_name@).len();
            if self.files@[l.file as int].id == file && (s.kind.spec_is_definition()
                || s.kind is Package) && count > 0 {
                rest.push(ReferenceLens { symbol: l, span: s.span, count: count as usize })
            } else {
                rest
            }
        }
    }

    /// Reference counts for the packages and definitions of file `file`.
    pub fn get_code_lenses(&self, file: FileId) -> (r: Vec<ReferenceLens>)
        requires
            self.wf(),
        ensures
            r@ == self.lenses(self.symbols@, file),
    {
        let mut out: Vec<ReferenceLens> = Vec::new();
        let mut k: usize = 0;
        while k < self.symbols.len()
            invariant
                self.wf(),
                k <= self.symbols@.len(),
                out@ == self.lenses(self.symbols@.subrange(0, k as int), file),
            decreases self.symbols.len() - k,
        {
            let id = self.symbols[k];
            assert(is_live(self.files@, self.symbols@[k as int]));
            assert(self.symbols@.subrange(0, k as int + 1).drop_last() =~= self.symbols@.subrange(
                0,
                k as int,
            ));
            let s = &self.files[id.file].symbols[id.index];
            if self.files[id.file].id == file && (s.kind.is_definition() || s.kind
                == crate::model::SymbolKind::Package) {
                let refs = self.get_references(s.qualified_name.as_str());
                if refs.len() > 0 {
                    out.push(ReferenceLens { symbol: id, span: s.span, count: refs.len() });
                }
            }
            k = k + 1;
        }
        assert(self.symbols@.subrange(0, k as int) =~= self.symbols@);
        out
    }
}

/// An entry of a file's outline: a symbol, and the position in the outline
/// of the entry it nests under.
#[derive(Clone, Copy, Debug, PartialEq, Eq, Structural)]
pub struct OutlineEntry {
    pub symbol: SymbolId,
    pub parent: Option<usize>,
}

impl Analysis {
    /// The live symbols of `ids` that belong to file `file`, in order.
    pub open spec fn in_file(&self, ids: Seq<SymbolId>, file: FileId) -> Seq<SymbolId>
        decreases ids.len(),
    {
        if ids.len() == 0 {
            ids
        } else {
            let rest = self.in_file(ids.drop_last(), file);
            if self.files@[ids.last().file as int].id == file {
                rest.push(ids.last())
            } else {
                rest
            }
        }
    }

    /// The first of `ids`, from `k` on, whose qualified name is `q`.
    pub open spec fn first_named(&self, ids: Seq<SymbolId>, q: Seq<char>, k: int) -> Option<int>
        decreases ids.len() - k,
    {
        if k < 0 || k >= ids.len() {
            None
        } else if self.sym(ids[k]).qualified_name@ == q {
            Some(k)
        } else {
            self.first_named(ids, q, k + 1)
        }
    }

    /// Where the entry for `l` nests in an outline of `ids`: at the entry
    /// named by the part of its qualified name before the last `::`.
    pub open spec fn outline_parent(&self, ids: Seq<SymbolId>, l: SymbolId) -> Option<int> {
        match parent_of(self.sym(l).qualified_name@) {
            Some(p) => self.first_named(ids, p, 0),
            None => None,
        }
    }

    fn first_named_exec(&self, ids: &Vec<SymbolId>, q: &String) -> (r: Option<usize>)
        requires
            self.wf(),
            forall|k: int| 0 <= k < ids@.len() ==> is_live(self.files@, #[trigger] ids@[k]),
        ensures
            match r {
                Some(k) => self.first_named(ids@, q@, 0) == Some(k as int),
                None => self.first_named(ids@, q@, 0) is None,
            },
    {
        let mut k: usize = 0;
        while k < ids.len()
            invariant
                self.wf(),
                forall|j: int| 0 <= j < ids@.len() ==> is_live(self.files@, #[trigger] ids@[j]),
                k <= ids@.len(),
                self.first_named(ids@, q@, 0) == self.first_named(ids@, q@, k as int),
            decreases ids.len() - k,
        {
            let id = ids[k];
            assert(is_live(self.files@, ids@[k as int]));
            if self.files[id.file].symbols[id.index].qualified_name == *q {
                return Some(k);
            }
            k = k + 1;
        }
        None
    }

    /// The outline of file `file`: its live symbols in declaration order,
    /// each with the entry it nests under.
    pub fn get_document_symbols(&self, file: FileId) -> (r: Vec<OutlineEntry>)
        requires
            self.wf(),
        ensures
            r@.len() == self.in_file(self.symbols@, file).len(),
            forall|i: int|
                0 <= i < r@.len() ==> (#[trigger] r@[i]).symbol == self.in_file(self.symbols@, file)[i]
                    && match r@[i].parent {
                    Some(p) => self.outline_parent(self.in_file(self.symbols@, file), r@[i].symbol)
                        == Some(p as int),
                    None => self.outline_parent(self.in_file(self.symbols@, file), r@[i].symbol) is None,
                },
    {
        let mut ids: Vec<SymbolId> = Vec::new();
        let mut k: usize = 0;
        while k < self.symbols.len()
            invariant
                self.wf(),
                k <= self.symbols@.len(),
                ids@ == self.in_file(self.symbols@.subrange(0, k as int), file),
                forall|j: int| 0 <= j < ids@.len() ==> is_live(self.files@, #[trigger] ids@[j]),
            decreases self.symbols.len() - k,
        {
            let id = self.symbols[k];
            assert(is_live(self.files@, self.symbols@[k as int]));
            assert(self.symbols@.subrange(0, k as int + 1).drop_last() =~= self.symbols@.subrange(
                0,
                k as int,
            ));
            if self.files[id.file].id == file {
                ids.push(id);
            }
            k = k + 1;
        }
        assert(self.symbols@.subrange(0, k as int) =~= self.symbols@);
        let ghost all = ids@;
        let mut out: Vec<OutlineEntry> = Vec::new();
        let mut i: usize = 0;
        while i < ids.len()
            invariant
                self.wf(),
                all == ids@,
                all == self.in_file(self.symbols@, file),
                forall|j: int| 0 <= j < ids@.len() ==> is_live(self.files@, #[trigger] ids@[j]),
                i <= ids@.len(),
                out@.len() == i,
                forall|j: int|
                    0 <= j < i ==> (#[trigger] out@[j]).symbol == all[j] && match out@[j].parent {
                        Some(p) => self.outline_parent(all, out@[j].symbol) == Some(p as int),
                        None => self.outline_parent(all, out@[j].symbol) is None,
                    },
            decreases ids.len() - i,
        {
            let id = ids[i];
            assert(is_live(self.files@, ids@[i as int]));
            let parent = match extract_parent(self.files[id.file].symbols[id.index].qualified_name.as_str()) {
                Some(p) => self.first_named_exec(&ids, &p),
                None => None,
            };
            out.push(OutlineEntry { symbol: id, parent });
            i = i + 1;
        }
        out
    }
}

/// A clickable span of a file and where it leads.
#[derive(Clone, Copy, Debug, PartialEq, Eq, Structural)]
pub struct DocumentLink {
    pub span: Span,
    pub target: Location,
}

impl Analysis {
    /// The links of the references of `s` in file `file` that resolve: each
    /// leads to the declaration of what it resolves to.
    pub open spec fn links(&self, s: Seq<RefId>, file: FileId) -> Seq<DocumentLink>
        decreases s.len(),
    {
        if s.len() == 0 {
            Seq::empty()
        } else {
            let rest = self.links(s.drop_last(), file);
            let r = s.last();
            if self.files@[r.file as int].id == file {
                match self.spec_resolve_reference(r) {
                    Some(t) => rest.push(
                        DocumentLink { span: ref_at(self.files@, r).span, target: self.decl_location(t) },
                    ),
                    None => rest,
                }
            } else {
                rest
            }
        }
    }

    /// A link for each reference of file `file` that resolves, leading to
    /// the declaration of its target.
    pub fn get_document_links(&self, file: FileId) -> (r: Vec<DocumentLink>)
        requires
            self.wf(),
        ensures
            r@ == self.links(self.references@, file),
    {
        let mut out: Vec<DocumentLink> = Vec::new();
        let mut k: usize = 0;
        while k < self.references.len()
            invariant
                self.wf(),
                k <= self.references@.len(),
                out@ == self.links(self.references@.subrange(0, k as int), file),
            decreases self.references.len() - k,
        {
            let r = self.references[k];
            assert(ref_valid(self.files@, self.references@[k as int]));
            assert(self.references@.subrange(0, k as int + 1).drop_last() =~= self.references@.subrange(
                0,
                k as int,
            ));
            if self.files[r.file].id == file {
                match self.resolve_reference(r) {
                    Some(t) => {
                        out.push(
                            DocumentLink {
                                span: self.files[r.file].symbols[r.symbol].type_refs[r.index].span,
                                target: Location {
                                    file: self.files[t.file].id,
                                    span: self.files[t.file].symbols[t.index].span,
                                },
                            },
                        );
                    },
                    None => {},
                }
            }
            k = k + 1;
        }
        assert(self.references@.subrange(0, k as int) =~= self.references@);
        out
    }
}

impl Analysis {
    /// The type of what a position denotes: the first of its candidates (the
    /// definition a usage is typed by, else its first supertype), resolved
    /// from its own scope.
    pub open spec fn spec_type_definition(&self, file: FileId, p: Position) -> Option<SymbolId> {
        match self.spec_goto_definition(file, p) {
            Some(t) => if self.candidates(t).len() > 0 {
                self.spec_resolve_in_scope(self.candidates(t)[0], self.home(t))
            } else {
                None
            },
            None => None,
        }
    }

    /// Where the type of what a position denotes is defined: from
    /// `engine : Engine` to `part def Engine`, from `v :> Base` to `Base`.
    pub fn get_type_definition(&self, file: FileId, position: Position) -> (r: Option<SymbolId>)
        requires
            self.wf(),
        ensures
            r == self.spec_type_definition(file, position),
    {
        let t = match self.get_definition(file, position) {
            Some(t) => t,
            None => {
                return None;
            },
        };
        let s = &self.files[t.file].symbols[t.index];
        let home = crate::resolve::ScopeRef { file: t.file, index: s.scope };
        if s.kind.is_usage() {
            match &s.typed_by {
                Some(n) => {
                    return self.resolve_in_scope(n.as_str(), home);
                },
                None => {},
            }
        }
        if s.supertypes.len() > 0 {
            self.resolve_in_scope(s.supertypes[0].as_str(), home)
        } else {
            None
        }
    }
}

impl Analysis {
    /// Whether what a position denotes can be renamed: if so, the span of
    /// its declaration and its current simple name.
    pub fn prepare_rename(&self, file: FileId, position: Position) -> (r: Option<(Span, String)>)
        requires
            self.wf(),
        ensures
            match self.spec_goto_definition(file, position) {
                Some(t) => r matches Some((sp, name)) && sp == self.sym(t).span && name@
                    == self.sym(t).name@,
                None => r is None,
            },
    {
        match self.get_definition(file, position) {
            Some(t) => {
                let s = &self.files[t.file].symbols[t.index];
                Some((s.span, s.name.clone()))
            },
            None => None,
        }
    }
}

} // verus!
