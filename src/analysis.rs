//! The merged, queryable snapshot of all files' contributions: the global
//! symbol list, the shadowing diagnostics and the reference index.
use vstd::prelude::*;
use crate::model::{FileRecord, Symbol, TypeRef, record_wf};

verus! {

/// A symbol of a snapshot: the position of its file in the snapshot's file
/// list, and its index within that file.
#[derive(Clone, Copy, Debug, PartialEq, Eq, Structural)]
pub struct SymbolId {
    pub file: usize,
    pub index: usize,
}

/// A name occurrence of a snapshot: its file position, the symbol that
/// holds it, and its index among that symbol's references.
#[derive(Clone, Copy, Debug, PartialEq, Eq, Structural)]
pub struct RefId {
    pub file: usize,
    pub symbol: usize,
    pub index: usize,
}

/// A qualified-name collision: `shadowed` lost its name to the later
/// declaration `by`.
#[derive(Clone, Copy, Debug, PartialEq, Eq, Structural)]
pub struct Diagnostic {
    pub shadowed: SymbolId,
    pub by: SymbolId,
}

pub open spec fn id_valid(files: Seq<FileRecord>, l: SymbolId) -> bool {
    l.file < files.len() && l.index < files[l.file as int].symbols@.len()
}

pub open spec fn sym_at(files: Seq<FileRecord>, l: SymbolId) -> Symbol {
    files[l.file as int].symbols@[l.index as int]
}

/// `m` is declared after `l`: in a later file, or later in the same file.
pub open spec fn id_after(m: SymbolId, l: SymbolId) -> bool {
    m.file > l.file || (m.file == l.file && m.index > l.index)
}

/// A symbol keeps its qualified name when no later declaration takes it.
pub open spec fn is_live(files: Seq<FileRecord>, l: SymbolId) -> bool {
    &&& id_valid(files, l)
    &&& forall|m: SymbolId|
        id_valid(files, m) && id_after(m, l) ==> #[trigger] sym_at(files, m).qualified_name@
            != sym_at(files, l).qualified_name@
}

/// The first `n` symbols of file `fi` whose liveness is `live`, in order.
pub open spec fn file_select(files: Seq<FileRecord>, fi: int, n: int, live: bool) -> Seq<SymbolId>
    decreases n,
{
    if n <= 0 {
        Seq::empty()
    } else {
        let id = SymbolId { file: fi as usize, index: (n - 1) as usize };
        let rest = file_select(files, fi, n - 1, live);
        if is_live(files, id) == live {
            rest.push(id)
        } else {
            rest
        }
    }
}

/// The symbols of the first `m` files whose liveness is `live`, in order.
pub open spec fn select_upto(files: Seq<FileRecord>, m: int, live: bool) -> Seq<SymbolId>
    decreases m,
{
    if m <= 0 {
        Seq::empty()
    } else {
        select_upto(files, m - 1, live) + file_select(
            files,
            m - 1,
            files[m - 1].symbols@.len() as int,
            live,
        )
    }
}

/// Every live symbol of the workspace, in file order then declaration order.
pub open spec fn live_symbols(files: Seq<FileRecord>) -> Seq<SymbolId> {
    select_upto(files, files.len() as int, true)
}

/// Every shadowed symbol, in the same order.
pub open spec fn shadowed_symbols(files: Seq<FileRecord>) -> Seq<SymbolId> {
    select_upto(files, files.len() as int, false)
}

/// The references held by symbol `si` of file `fi`.
pub open spec fn symbol_refs(files: Seq<FileRecord>, fi: int, si: int) -> Seq<RefId> {
    Seq::new(
        files[fi].symbols@[si].type_refs@.len(),
        |k: int| RefId { file: fi as usize, symbol: si as usize, index: k as usize },
    )
}

/// The references of the first `n` symbols of file `fi`.
pub open spec fn file_refs(files: Seq<FileRecord>, fi: int, n: int) -> Seq<RefId>
    decreases n,
{
    if n <= 0 {
        Seq::empty()
    } else {
        file_refs(files, fi, n - 1) + symbol_refs(files, fi, n - 1)
    }
}

/// Every reference of file `fi`.
pub open spec fn refs_of_file(files: Seq<FileRecord>, fi: int) -> Seq<RefId> {
    file_refs(files, fi, files[fi].symbols@.len() as int)
}

/// The references of the first `m` files.
pub open spec fn refs_upto(files: Seq<FileRecord>, m: int) -> Seq<RefId>
    decreases m,
{
    if m <= 0 {
        Seq::empty()
    } else {
        refs_upto(files, m - 1) + refs_of_file(files, m - 1)
    }
}

/// Every reference of the workspace.
pub open spec fn all_refs(files: Seq<FileRecord>) -> Seq<RefId> {
    refs_upto(files, files.len() as int)
}

pub open spec fn ref_valid(files: Seq<FileRecord>, r: RefId) -> bool {
    &&& r.file < files.len()
    &&& r.symbol < files[r.file as int].symbols@.len()
    &&& r.index < files[r.file as int].symbols@[r.symbol as int].type_refs@.len()
}

pub open spec fn ref_at(files: Seq<FileRecord>, r: RefId) -> TypeRef {
    files[r.file as int].symbols@[r.symbol as int].type_refs@[r.index as int]
}

/// File ids are distinct and every record is well formed.
pub open spec fn files_wf(files: Seq<FileRecord>) -> bool {
    &&& forall|i: int| 0 <= i < files.len() ==> record_wf(#[trigger] files[i])
    &&& forall|i: int, j: int|
        0 <= i < j < files.len() ==> #[trigger] files[i].id != #[trigger] files[j].id
}

proof fn lemma_file_select_members(files: Seq<FileRecord>, fi: int, n: int)
    ensures
        forall|k: int|
            0 <= k < file_select(files, fi, n, true).len() ==> is_live(
                files,
                #[trigger] file_select(files, fi, n, true)[k],
            ),
    decreases n,
{
    if n > 0 {
        lemma_file_select_members(files, fi, n - 1);
        let rest = file_select(files, fi, n - 1, true);
        let id = SymbolId { file: fi as usize, index: (n - 1) as usize };
        if is_live(files, id) {
            assert forall|k: int| 0 <= k < rest.push(id).len() implies is_live(
                files,
                #[trigger] rest.push(id)[k],
            ) by {
                if k < rest.len() {
                    assert(rest.push(id)[k] == rest[k]);
                }
            }
        }
    }
}

proof fn lemma_select_upto_members(files: Seq<FileRecord>, m: int)
    ensures
        forall|k: int|
            0 <= k < select_upto(files, m, true).len() ==> is_live(
                files,
                #[trigger] select_upto(files, m, true)[k],
            ),
    decreases m,
{
    if m > 0 {
        lemma_select_upto_members(files, m - 1);
        lemma_file_select_members(files, m - 1, files[m - 1].symbols@.len() as int);
        let a = select_upto(files, m - 1, true);
        let b = file_select(files, m - 1, files[m - 1].symbols@.len() as int, true);
        assert forall|k: int| 0 <= k < (a + b).len() implies is_live(files, #[trigger] (a + b)[k]) by {
            if k >= a.len() {
                assert((a + b)[k] == b[k - a.len()]);
            }
        }
    }
}

/// The merged view of the workspace.
pub struct Analysis {
    pub files: Vec<FileRecord>,
    pub symbols: Vec<SymbolId>,
    pub diagnostics: Vec<Diagnostic>,
    pub references: Vec<RefId>,
}

impl Analysis {
    /// The derived structures agree with the files.
    pub open spec fn wf(&self) -> bool {
        &&& files_wf(self.files@)
        &&& self.files@.len() <= usize::MAX
        &&& self.symbols@ == live_symbols(self.files@)
        &&& forall|k: int|
            0 <= k < self.symbols@.len() ==> is_live(self.files@, #[trigger] self.symbols@[k])
        &&& self.diagnostics@.map_values(|d: Diagnostic| d.shadowed) == shadowed_symbols(
            self.files@,
        )
        &&& self.references@ == all_refs(self.files@)
        &&& forall|k: int|
            0 <= k < self.references@.len() ==> ref_valid(self.files@, #[trigger] self.references@[k])
    }

    pub fn symbol(&self, id: SymbolId) -> (r: &Symbol)
        requires
            id_valid(self.files@, id),
        ensures
            *r == sym_at(self.files@, id),
    {
        &self.files[id.file].symbols[id.index]
    }

    /// The first symbol declared after `id` that has its qualified name.
    fn later_holder(files: &Vec<FileRecord>, id: SymbolId) -> (r: Option<SymbolId>)
        requires
            id_valid(files@, id),
        ensures
            r is None <==> is_live(files@, id),
            r matches Some(m) ==> id_valid(files@, m) && id_after(m, id) && sym_at(files@, m).qualified_name@
                == sym_at(files@, id).qualified_name@,
    {
        let q = &files[id.file].symbols[id.index].qualified_name;
        let len_here = files[id.file].symbols.len();
        let mut fi: usize = id.file;
        let mut si: usize = id.index + 1;
        while fi < files.len()
            invariant
                id_valid(files@, id),
                *q == sym_at(files@, id).qualified_name,
                id.file <= fi,
                fi == id.file ==> si > id.index,
                fi < files@.len() ==> si <= files@[fi as int].symbols@.len(),
                forall|m: SymbolId|
                    id_valid(files@, m) && id_after(m, id) && (m.file < fi || (m.file == fi
                        && m.index < si)) ==> #[trigger] sym_at(files@, m).qualified_name@
                        != sym_at(files@, id).qualified_name@,
            decreases files@.len() - fi, files@[fi as int].symbols@.len() - si,
        {
            let syms = &files[fi].symbols;
            if si < syms.len() {
                if syms[si].qualified_name == *q {
                    return Some(SymbolId { file: fi, index: si });
                }
                si = si + 1;
            } else {
                fi = fi + 1;
                si = 0;
            }
        }
        None
    }

    /// Builds the merged view of `files`.
    pub fn build(files: Vec<FileRecord>) -> (r: Analysis)
        requires
            files_wf(files@),
        ensures
            r.wf(),
            r.files@ == files@,
    {
        let (symbols, diagnostics) = Self::derive_symbols(&files);
        let references = Self::build_refs(&files);
        Analysis { files, symbols, diagnostics, references }
    }

    /// Recomputes the derived structures from the files.
    pub fn rebuild(&mut self)
        requires
            files_wf(old(self).files@),
        ensures
            final(self).wf(),
            final(self).files@ == old(self).files@,
    {
        let (symbols, diagnostics) = Self::derive_symbols(&self.files);
        let references = Self::build_refs(&self.files);
        self.symbols = symbols;
        self.diagnostics = diagnostics;
        self.references = references;
    }

    fn derive_symbols(files: &Vec<FileRecord>) -> (r: (Vec<SymbolId>, Vec<Diagnostic>))
        ensures
            r.0@ == live_symbols(files@),
            forall|k: int| 0 <= k < r.0@.len() ==> is_live(files@, #[trigger] r.0@[k]),
            r.1@.map_values(|d: Diagnostic| d.shadowed) == shadowed_symbols(files@),
    {
        let mut symbols: Vec<SymbolId> = Vec::new();
        let mut diagnostics: Vec<Diagnostic> = Vec::new();
        let mut fi: usize = 0;
        while fi < files.len()
            invariant
                fi <= files@.len(),
                symbols@ == select_upto(files@, fi as int, true),
                diagnostics@.map_values(|d: Diagnostic| d.shadowed) == select_upto(
                    files@,
                    fi as int,
                    false,
                ),
            decreases files.len() - fi,
        {
            let n = files[fi].symbols.len();
            let mut si: usize = 0;
            while si < n
                invariant
                    fi < files@.len(),
                    n == files@[fi as int].symbols@.len(),
                    si <= n,
                    symbols@ == select_upto(files@, fi as int, true) + file_select(
                        files@,
                        fi as int,
                        si as int,
                        true,
                    ),
                    diagnostics@.map_values(|d: Diagnostic| d.shadowed) == select_upto(
                        files@,
                        fi as int,
                        false,
                    ) + file_select(files@, fi as int, si as int, false),
                decreases n - si,
            {
                let id = SymbolId { file: fi, index: si };
                let ghost old_d = diagnostics@;
                match Self::later_holder(files, id) {
                    None => {
                        symbols.push(id);
                    },
                    Some(m) => {
                        diagnostics.push(Diagnostic { shadowed: id, by: m });
                        assert(diagnostics@.map_values(|d: Diagnostic| d.shadowed) =~= old_d.map_values(
                            |d: Diagnostic| d.shadowed,
                        ).push(id));
                    },
                }
                assert(select_upto(files@, fi as int, true) + file_select(
                    files@,
                    fi as int,
                    si as int + 1,
                    true,
                ) =~= if is_live(files@, id) {
                    (select_upto(files@, fi as int, true) + file_select(
                        files@,
                        fi as int,
                        si as int,
                        true,
                    )).push(id)
                } else {
                    select_upto(files@, fi as int, true) + file_select(
                        files@,
                        fi as int,
                        si as int,
                        true,
                    )
                });
                assert(select_upto(files@, fi as int, false) + file_select(
                    files@,
                    fi as int,
                    si as int + 1,
                    false,
                ) =~= if !is_live(files@, id) {
                    (select_upto(files@, fi as int, false) + file_select(
                        files@,
                        fi as int,
                        si as int,
                        false,
                    )).push(id)
                } else {
                    select_upto(files@, fi as int, false) + file_select(
                        files@,
                        fi as int,
                        si as int,
                        false,
                    )
                });
                si = si + 1;
            }
            fi = fi + 1;
        }
        proof {
            lemma_select_upto_members(files@, files@.len() as int);
        }
        (symbols, diagnostics)
    }

    fn build_refs(files: &Vec<FileRecord>) -> (r: Vec<RefId>)
        ensures
            r@ == all_refs(files@),
            forall|k: int| 0 <= k < r@.len() ==> ref_valid(files@, #[trigger] r@[k]),
            files@.len() <= usize::MAX,
    {
        let mut out: Vec<RefId> = Vec::new();
        let mut fi: usize = 0;
        while fi < files.len()
            invariant
                fi <= files@.len(),
                out@ == refs_upto(files@, fi as int),
                forall|j: int| 0 <= j < out@.len() ==> ref_valid(files@, #[trigger] out@[j]),
            decreases files.len() - fi,
        {
            let n = files[fi].symbols.len();
            let mut si: usize = 0;
            while si < n
                invariant
                    fi < files@.len(),
                    n == files@[fi as int].symbols@.len(),
                    si <= n,
                    out@ == refs_upto(files@, fi as int) + file_refs(files@, fi as int, si as int),
                    forall|j: int| 0 <= j < out@.len() ==> ref_valid(files@, #[trigger] out@[j]),
                decreases n - si,
            {
                let m = files[fi].symbols[si].type_refs.len();
                let mut k: usize = 0;
                while k < m
                    invariant
                        fi < files@.len(),
                        si < n,
                        n == files@[fi as int].symbols@.len(),
                        m == files@[fi as int].symbols@[si as int].type_refs@.len(),
                        k <= m,
                        out@ == refs_upto(files@, fi as int) + file_refs(
                            files@,
                            fi as int,
                            si as int,
                        ) + symbol_refs(files@, fi as int, si as int).subrange(0, k as int),
                        forall|j: int| 0 <= j < out@.len() ==> ref_valid(files@, #[trigger] out@[j]),
                    decreases m - k,
                {
                    out.push(RefId { file: fi, symbol: si, index: k });
                    assert(symbol_refs(files@, fi as int, si as int).subrange(0, k as int + 1)
                        =~= symbol_refs(files@, fi as int, si as int).subrange(0, k as int).push(
                        RefId { file: fi, symbol: si, index: k },
                    ));
                    k = k + 1;
                }
                assert(symbol_refs(files@, fi as int, si as int).subrange(0, m as int) =~= symbol_refs(
                    files@,
                    fi as int,
                    si as int,
                ));
                assert(refs_upto(files@, fi as int) + file_refs(files@, fi as int, si as int + 1)
                    =~= refs_upto(files@, fi as int) + file_refs(files@, fi as int, si as int)
                    + symbol_refs(files@, fi as int, si as int));
                si = si + 1;
            }
            fi = fi + 1;
        }
        out
    }
}

} // verus!
