//! The incremental layer: owns the files, replaces or removes one file's
//! contribution at a time, and rebuilds the merged view lazily.
use vstd::prelude::*;
use crate::analysis::{Analysis, all_refs, files_wf, live_symbols, shadowed_symbols};
use crate::model::{
    FileId, FileRecord, Scope, Symbol, contribution_is_well_formed, record_wf, scopes_wf,
    symbol_wf,
};

verus! {

/// Why a file's contribution was refused.
#[derive(Clone, Copy, Debug, PartialEq, Eq, Structural)]
pub enum ContributionError {
    /// The scope tree is not rooted at scope 0 with parents first, or a
    /// symbol names a scope that does not exist.
    Malformed,
}

/// The files with id `id` taken out, the others kept in order.
pub open spec fn without(files: Seq<FileRecord>, id: FileId) -> Seq<FileRecord>
    decreases files.len(),
{
    if files.len() == 0 {
        files
    } else {
        let rest = without(files.drop_last(), id);
        if files.last().id == id {
            rest
        } else {
            rest.push(files.last())
        }
    }
}

/// The files after `rec` replaces whatever its file contributed before:
/// the old record is dropped and the new one comes last.
pub open spec fn with_file(files: Seq<FileRecord>, rec: FileRecord) -> Seq<FileRecord> {
    without(files, rec.id).push(rec)
}

pub open spec fn has_id(files: Seq<FileRecord>, id: FileId) -> bool {
    exists|i: int| 0 <= i < files.len() && #[trigger] files[i].id == id
}

proof fn lemma_without_absent(files: Seq<FileRecord>, id: FileId)
    requires
        forall|i: int| 0 <= i < files.len() ==> #[trigger] files[i].id != id,
    ensures
        without(files, id) == files,
    decreases files.len(),
{
    if files.len() > 0 {
        lemma_without_absent(files.drop_last(), id);
        assert(files.drop_last().push(files.last()) =~= files);
    }
}

proof fn lemma_without_at(files: Seq<FileRecord>, id: FileId, i: int)
    requires
        0 <= i < files.len(),
        files[i].id == id,
        forall|a: int, b: int|
            0 <= a < b < files.len() ==> #[trigger] files[a].id != #[trigger] files[b].id,
    ensures
        without(files, id) == files.remove(i),
    decreases files.len(),
{
    if i == files.len() - 1 {
        assert forall|j: int| 0 <= j < files.drop_last().len() implies #[trigger] files.drop_last()[j].id
            != id by {
            assert(files[j].id != files[i].id);
        }
        lemma_without_absent(files.drop_last(), id);
        assert(files.remove(i) =~= files.drop_last());
    } else {
        lemma_without_at(files.drop_last(), id, i);
        assert(files.last().id != id) by {
            assert(files[i].id != files[files.len() - 1].id);
        }
        assert(files.drop_last().remove(i).push(files.last()) =~= files.remove(i));
    }
}

proof fn lemma_without_members(files: Seq<FileRecord>, id: FileId)
    ensures
        forall|j: int|
            0 <= j < without(files, id).len() ==> (#[trigger] without(files, id)[j]).id != id
                && files.contains(without(files, id)[j]),
    decreases files.len(),
{
    if files.len() > 0 {
        lemma_without_members(files.drop_last(), id);
        let rest = without(files.drop_last(), id);
        assert forall|j: int| 0 <= j < without(files, id).len() implies (#[trigger] without(
            files,
            id,
        )[j]).id != id && files.contains(without(files, id)[j]) by {
            if j < rest.len() {
                assert(without(files, id)[j] == rest[j]);
                let k = choose|k: int| 0 <= k < files.drop_last().len() && files.drop_last()[k] == rest[j];
                assert(files[k] == rest[j]);
            } else {
                assert(files[files.len() - 1] == files.last());
            }
        }
    }
}

/// Removing a file twice removes nothing more.
proof fn lemma_without_idempotent(files: Seq<FileRecord>, id: FileId)
    ensures
        without(without(files, id), id) == without(files, id),
{
    lemma_without_members(files, id);
    lemma_without_absent(without(files, id), id);
}

proof fn lemma_without_wf(files: Seq<FileRecord>, id: FileId)
    requires
        files_wf(files),
    ensures
        files_wf(without(files, id)),
    decreases files.len(),
{
    if files.len() > 0 {
        let d = files.drop_last();
        assert(files_wf(d)) by {
            assert forall|i: int| 0 <= i < d.len() implies record_wf(#[trigger] d[i]) by {
                assert(d[i] == files[i]);
            }
            assert forall|i: int, j: int| 0 <= i < j < d.len() implies #[trigger] d[i].id
                != #[trigger] d[j].id by {
                assert(d[i] == files[i] && d[j] == files[j]);
            }
        }
        lemma_without_wf(d, id);
        lemma_without_members(d, id);
        let rest = without(d, id);
        if files.last().id != id {
            let r = rest.push(files.last());
            assert forall|i: int| 0 <= i < r.len() implies record_wf(#[trigger] r[i]) by {
                if i < rest.len() {
                    let k = choose|k: int| 0 <= k < d.len() && d[k] == rest[i];
                    assert(record_wf(files[k]));
                } else {
                    assert(record_wf(files[files.len() - 1]));
                }
            }
            assert forall|i: int, j: int| 0 <= i < j < r.len() implies #[trigger] r[i].id
                != #[trigger] r[j].id by {
                if j == rest.len() {
                    let k = choose|k: int| 0 <= k < d.len() && d[k] == rest[i];
                    assert(files[k].id != files[files.len() - 1].id);
                }
            }
        }
    }
}

/// Owns the files of the workspace and the merged view built from them.
pub struct AnalysisHost {
    snapshot: Analysis,
    dirty: bool,
}

impl AnalysisHost {
    /// The files, in order; a replaced file moves to the end.
    pub closed spec fn files(&self) -> Seq<FileRecord> {
        self.snapshot.files@
    }

    pub closed spec fn is_dirty(&self) -> bool {
        self.dirty
    }

    pub closed spec fn wf(&self) -> bool {
        &&& files_wf(self.snapshot.files@)
        &&& !self.dirty ==> self.snapshot.wf()
    }

    pub fn new() -> (r: AnalysisHost)
        ensures
            r.wf(),
            r.files() == Seq::<FileRecord>::empty(),
            !r.is_dirty(),
    {
        let snapshot = Analysis::build(Vec::new());
        AnalysisHost { snapshot, dirty: false }
    }

    fn position_of(&self, id: FileId) -> (r: Option<usize>)
        ensures
            match r {
                Some(i) => i < self.files().len() && self.files()[i as int].id == id,
                None => forall|i: int|
                    0 <= i < self.files().len() ==> #[trigger] self.files()[i].id != id,
            },
    {
        let mut i: usize = 0;
        while i < self.snapshot.files.len()
            invariant
                i <= self.files().len(),
                forall|j: int| 0 <= j < i ==> #[trigger] self.files()[j].id != id,
            decreases self.snapshot.files.len() - i,
        {
            if self.snapshot.files[i].id == id {
                return Some(i);
            }
            i = i + 1;
        }
        None
    }

    /// Drops the contribution of file `id`, if there is one, and reports
    /// whether there was.
    pub fn remove_file(&mut self, id: FileId) -> (r: bool)
        requires
            old(self).wf(),
        ensures
            final(self).wf(),
            final(self).files() == without(old(self).files(), id),
            r == has_id(old(self).files(), id),
            r ==> final(self).is_dirty(),
            !r ==> final(self).is_dirty() == old(self).is_dirty(),
    {
        proof {
            lemma_without_wf(self.files(), id);
        }
        match self.position_of(id) {
            Some(i) => {
                proof {
                    lemma_without_at(self.files(), id, i as int);
                }
                let _ = self.snapshot.files.remove(i);
                self.dirty = true;
                true
            },
            None => {
                proof {
                    lemma_without_absent(self.files(), id);
                }
                false
            },
        }
    }

    /// Replaces everything file `id` contributed by `scopes` and `symbols`:
    /// the old record is removed before the new one is added. A malformed
    /// contribution is refused and nothing changes.
    pub fn set_file(&mut self, id: FileId, path: String, scopes: Vec<Scope>, symbols: Vec<Symbol>) -> (r:
        Result<(), ContributionError>)
        requires
            old(self).wf(),
        ensures
            final(self).wf(),
            r is Ok <==> record_wf(FileRecord { id, path, scopes, symbols }),
            r is Ok ==> final(self).files() == with_file(
                old(self).files(),
                FileRecord { id, path, scopes, symbols },
            ) && final(self).is_dirty(),
            r is Err ==> *final(self) == *old(self),
    {
        let ghost rec = FileRecord { id, path, scopes, symbols };
        let ok = contribution_is_well_formed(&scopes, &symbols);
        proof {
            if ok {
                assert forall|k: int| 0 <= k < rec.symbols@.len() implies symbol_wf(
                    #[trigger] rec.symbols@[k],
                    rec.scopes@.len(),
                ) by {
                    assert(rec.symbols@[k] == symbols@[k]);
                }
            } else if scopes_wf(scopes@) {
                let k = choose|k: int|
                    0 <= k < symbols@.len() && !symbol_wf(#[trigger] symbols@[k], scopes@.len());
                assert(rec.symbols@[k] == symbols@[k]);
            }
        }
        if !ok {
            return Err(ContributionError::Malformed);
        }
        let ghost orig = self.files();
        let _ = self.remove_file(id);
        let ghost before = self.files();
        proof {
            lemma_without_members(orig, id);
        }
        self.snapshot.files.push(FileRecord { id, path, scopes, symbols });
        self.dirty = true;
        proof {
            let f = self.files();
            assert(f == before.push(rec));
            assert forall|i: int| 0 <= i < f.len() implies record_wf(#[trigger] f[i]) by {
                if i < before.len() {
                    assert(f[i] == before[i]);
                }
            }
            assert forall|i: int, j: int| 0 <= i < j < f.len() implies #[trigger] f[i].id
                != #[trigger] f[j].id by {
                if j == before.len() {
                    assert(f[i] == before[i]);
                } else {
                    assert(f[i] == before[i] && f[j] == before[j]);
                }
            }
        }
        Ok(())
    }

    /// The merged view of the current files, rebuilt first if any file
    /// changed since the last call.
    pub fn analysis(&mut self) -> (r: &Analysis)
        requires
            old(self).wf(),
        ensures
            final(self).wf(),
            !final(self).is_dirty(),
            final(self).files() == old(self).files(),
            r.wf(),
            r.files@ == old(self).files(),
    {
        if self.dirty {
            self.snapshot.rebuild();
            self.dirty = false;
        }
        &self.snapshot
    }
}

/// Indexing the same contribution of a file twice in a row leaves the
/// workspace as the first indexing left it, so the merged symbols, the
/// shadowing diagnostics and every reference count are unchanged.
pub proof fn lemma_reindex_idempotent(files: Seq<FileRecord>, rec: FileRecord)
    ensures
        with_file(with_file(files, rec), rec) == with_file(files, rec),
        live_symbols(with_file(with_file(files, rec), rec)) == live_symbols(with_file(files, rec)),
        shadowed_symbols(with_file(with_file(files, rec), rec)) == shadowed_symbols(
            with_file(files, rec),
        ),
        all_refs(with_file(with_file(files, rec), rec)) == all_refs(with_file(files, rec)),
{
    let once = with_file(files, rec);
    let w = without(files, rec.id);
    assert(once.drop_last() =~= w);
    assert(without(once, rec.id) == without(w, rec.id));
    lemma_without_idempotent(files, rec.id);
}

} // verus!
