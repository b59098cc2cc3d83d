//! Sync conflicts: files that the syncing tool left beside a note when two
//! devices changed it at once. Each is reported once while it exists.
use crate::text::{chars_of, contains_chars, contains_seq, string_from_chars};
use vstd::prelude::*;

verus! {

/// A file name that the syncing tool gives to a conflict copy.
pub open spec fn is_sync_conflict_spec(file_name: Seq<char>) -> bool {
    contains_seq(file_name, "sync-conflict"@)
}

/// Whether `file_name` names a conflict copy.
pub fn is_sync_conflict(file_name: &str) -> (r: bool)
    ensures
        r == is_sync_conflict_spec(file_name@),
{
    let name = chars_of(file_name);
    let mark = chars_of("sync-conflict");
    contains_chars(name.as_slice(), mark.as_slice())
}

/// The message that reports the conflict copy `file_name` (its path
/// relative to the vault root).
pub fn conflict_notice(file_name: &str) -> (r: String)
    ensures
        r@ == "file sync conflict: "@ + file_name@,
{
    let mut v = chars_of("file sync conflict: ");
    let mut n = chars_of(file_name);
    v.append(&mut n);
    string_from_chars(v.as_slice())
}

pub open spec fn paths_of(v: Seq<String>) -> Set<Seq<char>> {
    Set::new(|p: Seq<char>| exists|i: int| 0 <= i < v.len() && v[i]@ == p)
}

/// The conflict copies that were reported and still exist.
pub struct SyncConflictTracker {
    reported: Vec<String>,
}

impl View for SyncConflictTracker {
    type V = Set<Seq<char>>;

    closed spec fn view(&self) -> Set<Seq<char>> {
        paths_of(self.reported@)
    }
}

fn find_path(v: &Vec<String>, path: &str) -> (r: bool)
    ensures
        r == paths_of(v@).contains(path@),
{
    let p = String::from_str(path);
    let mut i: usize = 0;
    while i < v.len()
        invariant
            0 <= i <= v@.len(),
            p@ == path@,
            forall|j: int| 0 <= j < i ==> v@[j]@ != path@,
        decreases v.len() - i,
    {
        if v[i] == p {
            assert(v@[i as int]@ == path@);
            return true;
        }
        i += 1;
    }
    false
}

impl SyncConflictTracker {
    /// Nothing reported yet.
    pub fn new() -> (r: SyncConflictTracker)
        ensures
            r@ == Set::<Seq<char>>::empty(),
    {
        let r = SyncConflictTracker { reported: Vec::new() };
        assert(r@ =~= Set::<Seq<char>>::empty());
        r
    }

    /// The conflict copy at `path` was seen; `true` when it was not reported
    /// yet, and it now counts as reported.
    pub fn report_new(&mut self, path: &str) -> (fresh: bool)
        ensures
            fresh == !old(self)@.contains(path@),
            final(self)@ == old(self)@.insert(path@),
    {
        if find_path(&self.reported, path) {
            return false;
        }
        let ghost before = self.reported@;
        self.reported.push(String::from_str(path));
        proof {
            assert forall|p: Seq<char>| #[trigger] paths_of(self.reported@).contains(p) <==> paths_of(
                before,
            ).insert(path@).contains(p) by {
                if paths_of(self.reported@).contains(p) {
                    let i = choose|i: int|
                        0 <= i < self.reported@.len() && self.reported@[i]@ == p;
                    if i < before.len() {
                        assert(before[i] == self.reported@[i]);
                    }
                }
                if paths_of(before).contains(p) {
                    let i = choose|i: int| 0 <= i < before.len() && before[i]@ == p;
                    assert(self.reported@[i] == before[i]);
                }
                if p == path@ {
                    assert(self.reported@[before.len() as int]@ == p);
                }
            }
            assert(paths_of(self.reported@) =~= paths_of(before).insert(path@));
        }
        true
    }

    /// The paths reported so far.
    pub fn paths(&self) -> (r: Vec<String>)
        ensures
            paths_of(r@) == self@,
    {
        let mut out: Vec<String> = Vec::new();
        let mut i: usize = 0;
        while i < self.reported.len()
            invariant
                0 <= i <= self.reported@.len(),
                out@.len() == i,
                forall|j: int| 0 <= j < i ==> #[trigger] out@[j]@ == self.reported@[j]@,
            decreases self.reported.len() - i,
        {
            out.push(self.reported[i].clone());
            i += 1;
        }
        proof {
            assert forall|p: Seq<char>| #[trigger] paths_of(out@).contains(p) <==> paths_of(
                self.reported@,
            ).contains(p) by {
                if paths_of(out@).contains(p) {
                    let j = choose|j: int| 0 <= j < out@.len() && out@[j]@ == p;
                    assert(self.reported@[j]@ == p);
                }
                if paths_of(self.reported@).contains(p) {
                    let j = choose|j: int| 0 <= j < self.reported@.len() && self.reported@[j]@ == p;
                    assert(out@[j]@ == p);
                }
            }
            assert(paths_of(out@) =~= paths_of(self.reported@));
        }
        out
    }

    /// The conflict copies at `missing` no longer exist: they stop counting
    /// as reported, so that they are reported again if they come back.
    pub fn forget_missing(&mut self, missing: &Vec<String>)
        ensures
            final(self)@ == old(self)@.difference(paths_of(missing@)),
    {
        let ghost before = self.reported@;
        let mut kept: Vec<String> = Vec::new();
        let mut i: usize = 0;
        while i < self.reported.len()
            invariant
                self.reported@ == before,
                0 <= i <= before.len(),
                forall|p: Seq<char>|
                    #[trigger] paths_of(kept@).contains(p) <==> (exists|j: int|
                        0 <= j < i && before[j]@ == p) && !paths_of(missing@).contains(p),
            decreases self.reported.len() - i,
        {
            let ghost kb = kept@;
            if !find_path(missing, self.reported[i].as_str()) {
                kept.push(self.reported[i].clone());
            }
            proof {
                assert forall|p: Seq<char>| #[trigger] paths_of(kept@).contains(p) <==> (exists|j: int|
                    0 <= j < i + 1 && before[j]@ == p) && !paths_of(missing@).contains(p) by {
                    if paths_of(kept@).contains(p) {
                        let a = choose|a: int| 0 <= a < kept@.len() && kept@[a]@ == p;
                        if a < kb.len() {
                            assert(kb[a] == kept@[a]);
                            assert(paths_of(kb).contains(p));
                            let j = choose|j: int| 0 <= j < i && before[j]@ == p;
                            assert(0 <= j < i + 1 && before[j]@ == p);
                        } else {
                            assert(before[i as int]@ == p);
                        }
                    }
                    if (exists|j: int| 0 <= j < i + 1 && before[j]@ == p) && !paths_of(
                        missing@,
                    ).contains(p) {
                        let j = choose|j: int| 0 <= j < i + 1 && before[j]@ == p;
                        if j < i {
                            assert(paths_of(kb).contains(p));
                            let a = choose|a: int| 0 <= a < kb.len() && kb[a]@ == p;
                            assert(kept@[a] == kb[a]);
                        } else {
                            assert(kept@[kept@.len() - 1]@ == p);
                        }
                    }
                }
            }
            i += 1;
        }
        proof {
            assert forall|p: Seq<char>| #[trigger] paths_of(kept@).contains(p) <==> paths_of(
                before,
            ).difference(paths_of(missing@)).contains(p) by {}
            assert(paths_of(kept@) =~= paths_of(before).difference(paths_of(missing@)));
        }
        self.reported = kept;
    }
}

/// A conflict copy is reported once: seen again while it still counts as
/// reported, it is not new.
pub proof fn law_conflict_reported_once(reported: Set<Seq<char>>, path: Seq<char>)
    ensures
        reported.insert(path).contains(path),
{
}

/// A conflict copy that disappeared and came back is reported again.
pub proof fn law_conflict_reported_again_after_removal(
    reported: Set<Seq<char>>,
    path: Seq<char>,
    missing: Seq<String>,
)
    requires
        paths_of(missing).contains(path),
    ensures
        !reported.difference(paths_of(missing)).contains(path),
{
}

} // verus!
