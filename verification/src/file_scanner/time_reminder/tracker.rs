//! Which reminders have a countdown running.
//!
//! The scanner reads every note of a vault once per pass. A reminder found
//! for the first time gets a countdown task; a reminder that a pass no longer
//! finds loses its entry (and its task, if one still runs). When a countdown
//! finishes, a reminder with a date keeps its place with no task, so that it
//! is not counted down again while it stays in the notes; a reminder with a
//! time of day and no date (and not ticked) goes off every day, so it loses
//! its entry and the next pass that finds it starts its countdown to the
//! day's time again. A reminder with neither date nor time is counted down
//! once, like a dated one.
use crate::file_scanner::time_reminder::model::{ReminderKey, ReminderKeyView};
use vstd::prelude::*;

verus! {

/// One tracked reminder and the id of its countdown task, if that task has
/// not finished.
pub struct TrackedReminder {
    pub key: ReminderKey,
    pub task: Option<u64>,
}

/// The tracked reminders of a vault.
pub struct ReminderTracker {
    entries: Vec<TrackedReminder>,
}

/// The map that a list of entries describes.
pub open spec fn entries_map(s: Seq<TrackedReminder>) -> Map<ReminderKeyView, Option<u64>>
    decreases s.len(),
{
    if s.len() == 0 {
        Map::empty()
    } else {
        entries_map(s.drop_last()).insert(s.last().key@, s.last().task)
    }
}

pub open spec fn keys_distinct(s: Seq<TrackedReminder>) -> bool {
    forall|i: int, j: int| 0 <= i < j < s.len() ==> s[i].key@ != s[j].key@
}

pub open spec fn keys_of(ks: Seq<ReminderKey>) -> Set<ReminderKeyView> {
    Set::new(|k: ReminderKeyView| exists|i: int| 0 <= i < ks.len() && ks[i]@ == k)
}

/// Whether reminder `k` goes off every day: its time stamp gives a time of
/// day (hour and minute) and no date, and its check box, if any, is not
/// ticked.
pub open spec fn repeats_daily(k: ReminderKeyView) -> bool {
    &&& k.time_parts.year is None
    &&& k.time_parts.month is None
    &&& k.time_parts.day is None
    &&& k.time_parts.hour is Some
    &&& k.time_parts.minute is Some
    &&& !k.completed_checked
}

/// The task of an entry once the tasks `finished` are over.
pub open spec fn task_after(task: Option<u64>, finished: Seq<u64>) -> Option<u64> {
    match task {
        Some(t) => if finished.contains(t) {
            None
        } else {
            Some(t)
        },
        None => None,
    }
}

/// Whether the entry of reminder `k` with task `task` is dropped once the
/// tasks `finished` are over: a daily reminder whose countdown finished.
pub open spec fn daily_finished(k: ReminderKeyView, task: Option<u64>, finished: Seq<u64>) -> bool {
    repeats_daily(k) && (task matches Some(t) && finished.contains(t))
}

/// The tracked map once the tasks `finished` are over: daily reminders whose
/// countdown finished are no longer tracked; other entries whose task is one
/// of `finished` lose their task.
pub open spec fn clear_spec(m: Map<ReminderKeyView, Option<u64>>, finished: Seq<u64>) -> Map<
    ReminderKeyView,
    Option<u64>,
> {
    Map::new(
        |k: ReminderKeyView| m.contains_key(k) && !daily_finished(k, m[k], finished),
        |k: ReminderKeyView| task_after(m[k], finished),
    )
}

/// The tasks of the entries of `m` whose reminder is not in `found`.
pub open spec fn stopped_tasks(m: Map<ReminderKeyView, Option<u64>>, found: Set<ReminderKeyView>) -> Set<u64> {
    Set::new(
        |t: u64|
            exists|k: ReminderKeyView| m.contains_key(k) && !found.contains(k) && m[k] == Some(t),
    )
}

proof fn lemma_take_step(s: Seq<TrackedReminder>, i: int)
    requires
        0 <= i < s.len(),
    ensures
        entries_map(s.take(i + 1)) == entries_map(s.take(i)).insert(s[i].key@, s[i].task),
{
    assert(s.take(i + 1).drop_last() =~= s.take(i));
}

proof fn lemma_fresh_key(s: Seq<TrackedReminder>, i: int)
    requires
        0 <= i < s.len(),
        keys_distinct(s),
    ensures
        !entries_map(s.take(i)).contains_key(s[i].key@),
{
    let p = s.take(i);
    assert(keys_distinct(p));
    lemma_entries_map(p);
    if entries_map(p).contains_key(s[i].key@) {
        let a = choose|a: int| 0 <= a < p.len() && p[a].key@ == s[i].key@;
        assert(s[a].key@ == s[i].key@);
    }
}

proof fn lemma_stopped_step(
    m: Map<ReminderKeyView, Option<u64>>,
    k: ReminderKeyView,
    v: Option<u64>,
    found: Set<ReminderKeyView>,
)
    requires
        !m.contains_key(k),
    ensures
        forall|t: u64|
            #![trigger stopped_tasks(m.insert(k, v), found).contains(t)]
            stopped_tasks(m.insert(k, v), found).contains(t) <==> stopped_tasks(m, found).contains(t)
                || (!found.contains(k) && v == Some(t)),
{
    assert forall|t: u64| stopped_tasks(m.insert(k, v), found).contains(t) <==> stopped_tasks(
        m,
        found,
    ).contains(t) || (!found.contains(k) && v == Some(t)) by {
        if stopped_tasks(m.insert(k, v), found).contains(t) {
            let k2 = choose|k2: ReminderKeyView|
                m.insert(k, v).contains_key(k2) && !found.contains(k2) && m.insert(k, v)[k2] == Some(
                    t,
                );
            if k2 != k {
                assert(m.contains_key(k2) && !found.contains(k2) && m[k2] == Some(t));
            }
        }
        if stopped_tasks(m, found).contains(t) {
            let k2 = choose|k2: ReminderKeyView|
                m.contains_key(k2) && !found.contains(k2) && m[k2] == Some(t);
            assert(m.insert(k, v).contains_key(k2) && m.insert(k, v)[k2] == Some(t));
        }
        if !found.contains(k) && v == Some(t) {
            assert(m.insert(k, v).contains_key(k) && m.insert(k, v)[k] == Some(t));
        }
    }
}

proof fn lemma_entries_map(s: Seq<TrackedReminder>)
    requires
        keys_distinct(s),
    ensures
        forall|k: ReminderKeyView|
            #![trigger entries_map(s).contains_key(k)]
            entries_map(s).contains_key(k) <==> exists|i: int| 0 <= i < s.len() && s[i].key@ == k,
        forall|i: int| 0 <= i < s.len() ==> #[trigger] entries_map(s)[s[i].key@] == s[i].task,
        entries_map(s).dom().finite(),
        entries_map(s).dom().len() == s.len(),
    decreases s.len(),
{
    if s.len() > 0 {
        let p = s.drop_last();
        assert(keys_distinct(p));
        lemma_entries_map(p);
        assert forall|k: ReminderKeyView| entries_map(s).contains_key(k) <==> exists|i: int|
            0 <= i < s.len() && s[i].key@ == k by {
            if entries_map(p).contains_key(k) {
                let i = choose|i: int| 0 <= i < p.len() && p[i].key@ == k;
                assert(s[i].key@ == k);
            }
            if exists|i: int| 0 <= i < s.len() && s[i].key@ == k {
                let i = choose|i: int| 0 <= i < s.len() && s[i].key@ == k;
                if i < s.len() - 1 {
                    assert(p[i].key@ == k);
                }
            }
        }
        assert forall|i: int| 0 <= i < s.len() implies #[trigger] entries_map(s)[s[i].key@]
            == s[i].task by {
            if i < s.len() - 1 {
                assert(p[i] == s[i]);
                assert(s[i].key@ != s.last().key@);
            }
        }
        if entries_map(p).contains_key(s.last().key@) {
            let i = choose|i: int| 0 <= i < p.len() && p[i].key@ == s.last().key@;
            assert(s[i].key@ == s[s.len() - 1].key@);
        }
    }
}

proof fn lemma_keys_of_step(ks: Seq<ReminderKey>, i: int)
    requires
        0 <= i < ks.len(),
    ensures
        keys_of(ks.take(i + 1)) == keys_of(ks.take(i)).insert(ks[i]@),
{
    assert forall|k: ReminderKeyView| #[trigger] keys_of(ks.take(i + 1)).contains(k) <==> keys_of(
        ks.take(i),
    ).insert(ks[i]@).contains(k) by {
        if keys_of(ks.take(i + 1)).contains(k) {
            let a = choose|a: int| 0 <= a < i + 1 && #[trigger] ks.take(i + 1)[a]@ == k;
            if a < i {
                assert(ks.take(i)[a]@ == k);
            }
        }
        if keys_of(ks.take(i)).contains(k) {
            let a = choose|a: int| 0 <= a < i && #[trigger] ks.take(i)[a]@ == k;
            assert(ks.take(i + 1)[a]@ == k);
        }
        if k == ks[i]@ {
            assert(ks.take(i + 1)[i]@ == k);
        }
    }
    assert(keys_of(ks.take(i + 1)) =~= keys_of(ks.take(i)).insert(ks[i]@));
}

/// A countdown to start: the reminder and the id of its task.
pub struct CountdownStart {
    pub key: ReminderKey,
    pub task: u64,
}

/// What a pass asks of the caller: the countdowns to start and the tasks to
/// stop.
pub struct PassActions {
    pub started: Vec<CountdownStart>,
    pub stopped: Vec<u64>,
}

fn contains_task(v: &Vec<u64>, t: u64) -> (r: bool)
    ensures
        r == v@.contains(t),
{
    let mut j: usize = 0;
    while j < v.len()
        invariant
            0 <= j <= v@.len(),
            forall|c: int| 0 <= c < j ==> v@[c] != t,
        decreases v.len() - j,
    {
        if v[j] == t {
            return true;
        }
        j += 1;
    }
    false
}

impl View for ReminderTracker {
    type V = Map<ReminderKeyView, Option<u64>>;

    closed spec fn view(&self) -> Map<ReminderKeyView, Option<u64>> {
        entries_map(self.entries@)
    }
}

impl ReminderTracker {
    #[verifier::type_invariant]
    spec fn inv(self) -> bool {
        keys_distinct(self.entries@)
    }

    /// No reminder tracked.
    pub fn new() -> (r: ReminderTracker)
        ensures
            r@ == Map::<ReminderKeyView, Option<u64>>::empty(),
    {
        ReminderTracker { entries: Vec::new() }
    }

    /// How many reminders are tracked.
    pub fn len(&self) -> (r: usize)
        ensures
            r == self@.dom().len(),
    {
        proof {
            use_type_invariant(self);
            lemma_entries_map(self.entries@);
        }
        self.entries.len()
    }

    fn find(&self, key: &ReminderKey) -> (r: Option<usize>)
        ensures
            r matches Some(i) ==> i < self.entries@.len() && self.entries@[i as int].key@ == key@,
            r is None ==> forall|i: int|
                0 <= i < self.entries@.len() ==> self.entries@[i].key@ != key@,
    {
        let mut i: usize = 0;
        while i < self.entries.len()
            invariant
                0 <= i <= self.entries@.len(),
                forall|j: int| 0 <= j < i ==> self.entries@[j].key@ != key@,
            decreases self.entries.len() - i,
        {
            if self.entries[i].key.same_as(key) {
                return Some(i);
            }
            i += 1;
        }
        None
    }

    /// Whether `key` is tracked.
    pub fn contains(&self, key: &ReminderKey) -> (r: bool)
        ensures
            r == self@.contains_key(key@),
    {
        proof {
            use_type_invariant(self);
            lemma_entries_map(self.entries@);
        }
        self.find(key).is_some()
    }

    /// The countdown task of `key`, if it is tracked and its task runs.
    pub fn task_of(&self, key: &ReminderKey) -> (r: Option<u64>)
        ensures
            self@.contains_key(key@) ==> r == self@[key@],
            !self@.contains_key(key@) ==> r is None,
    {
        proof {
            use_type_invariant(self);
            lemma_entries_map(self.entries@);
        }
        match self.find(key) {
            Some(i) => self.entries[i].task,
            None => None,
        }
    }

    /// A reminder found during a pass. If it is not tracked yet it is tracked
    /// from now on with countdown task `task`, and the result is `true`: the
    /// caller starts that task. A tracked reminder is left as it is.
    pub fn observe(&mut self, key: &ReminderKey, task: u64) -> (started: bool)
        ensures
            started == !old(self)@.contains_key(key@),
            started ==> final(self)@ == old(self)@.insert(key@, Some(task)),
            !started ==> final(self)@ == old(self)@,
    {
        proof {
            use_type_invariant(&*self);
            lemma_entries_map(self.entries@);
        }
        if self.find(key).is_some() {
            return false;
        }
        let ghost before = self.entries@;
        let mut entries: Vec<TrackedReminder> = Vec::new();
        std::mem::swap(&mut entries, &mut self.entries);
        entries.push(TrackedReminder { key: key.duplicate(), task: Some(task) });
        proof {
            assert(entries@.drop_last() =~= before);
            assert forall|i: int, j: int| 0 <= i < j < entries@.len() implies entries@[i].key@
                != entries@[j].key@ by {
                if j == entries@.len() - 1 {
                    assert(entries@[i] == before[i]);
                } else {
                    assert(entries@[i] == before[i]);
                    assert(entries@[j] == before[j]);
                }
            }
        }
        self.entries = entries;
        true
    }

    /// The end of a pass that found the reminders `found`: every tracked
    /// reminder that was not found stops being tracked. Gives the tasks of
    /// those reminders for the caller to stop.
    pub fn end_pass(&mut self, found: &Vec<ReminderKey>) -> (stopped: Vec<u64>)
        ensures
            final(self)@ == old(self)@.restrict(keys_of(found@)),
            forall|t: u64|
                #![trigger stopped@.contains(t)]
                stopped@.contains(t) <==> stopped_tasks(old(self)@, keys_of(found@)).contains(t),
    {
        proof {
            use_type_invariant(&*self);
        }
        let ghost old_entries = self.entries@;
        let ghost fk = keys_of(found@);
        let mut kept: Vec<TrackedReminder> = Vec::new();
        let mut stopped: Vec<u64> = Vec::new();
        let mut rest: Vec<TrackedReminder> = Vec::new();
        std::mem::swap(&mut rest, &mut self.entries);
        let mut i: usize = 0;
        let n = rest.len();
        proof {
            assert(old_entries.take(0) =~= Seq::<TrackedReminder>::empty());
            assert(entries_map(kept@) =~= entries_map(old_entries.take(0)).restrict(fk));
        }
        while i < n
            invariant
                n == rest@.len(),
                rest@ == old_entries,
                fk == keys_of(found@),
                keys_distinct(old_entries),
                0 <= i <= n,
                keys_distinct(kept@),
                entries_map(kept@) == entries_map(old_entries.take(i as int)).restrict(fk),
                forall|t: u64|
                    #![trigger stopped@.contains(t)]
                    stopped@.contains(t) <==> stopped_tasks(
                        entries_map(old_entries.take(i as int)),
                        fk,
                    ).contains(t),
            decreases n - i,
        {
            let mut hit = false;
            let mut j: usize = 0;
            while j < found.len()
                invariant
                    0 <= j <= found@.len(),
                    i < rest@.len(),
                    hit <==> exists|c: int| 0 <= c < j && found@[c]@ == rest@[i as int].key@,
                decreases found.len() - j,
            {
                if found[j].same_as(&rest[i].key) {
                    hit = true;
                }
                j += 1;
            }
            let ghost k = old_entries[i as int].key@;
            let ghost v = old_entries[i as int].task;
            let ghost m = entries_map(old_entries.take(i as int));
            proof {
                if hit {
                    let c = choose|c: int| 0 <= c < found@.len() && found@[c]@ == k;
                    assert(fk.contains(k));
                }
                if fk.contains(k) {
                    let c = choose|c: int| 0 <= c < found@.len() && found@[c]@ == k;
                    assert(found@[c]@ == rest@[i as int].key@);
                }
                lemma_take_step(old_entries, i as int);
                lemma_fresh_key(old_entries, i as int);
                lemma_stopped_step(m, k, v, fk);
            }
            let ghost stopped_before = stopped@;
            if hit {
                let ghost kept_before = kept@;
                proof {
                    lemma_entries_map(kept_before);
                    if entries_map(kept_before).contains_key(k) {
                        assert(m.contains_key(k));
                    }
                }
                kept.push(TrackedReminder { key: rest[i].key.duplicate(), task: rest[i].task });
                proof {
                    assert(kept@.drop_last() =~= kept_before);
                    assert forall|a: int, c: int| 0 <= a < c < kept@.len() implies kept@[a].key@
                        != kept@[c].key@ by {
                        assert(kept@[a] == kept_before[a]);
                        if c < kept@.len() - 1 {
                            assert(kept@[c] == kept_before[c]);
                        } else {
                            assert(entries_map(kept_before).contains_key(kept_before[a].key@));
                        }
                    }
                    assert(entries_map(kept@) =~= m.insert(k, v).restrict(fk));
                }
            } else {
                match rest[i].task {
                    Some(t) => {
                        stopped.push(t);
                    },
                    None => {},
                }
                proof {
                    assert(entries_map(kept@) =~= m.insert(k, v).restrict(fk));
                    assert forall|t: u64| #[trigger] stopped@.contains(t) <==> stopped_tasks(
                        m.insert(k, v),
                        fk,
                    ).contains(t) by {
                        if v == Some(t) {
                            assert(stopped@[stopped@.len() - 1] == t);
                        }
                        if stopped@.contains(t) && !(v == Some(t)) {
                            let x = choose|x: int| 0 <= x < stopped@.len() && stopped@[x] == t;
                            assert(stopped_before[x] == t);
                        }
                        if stopped_before.contains(t) {
                            let x = choose|x: int|
                                0 <= x < stopped_before.len() && stopped_before[x] == t;
                            assert(stopped@[x] == t);
                        }
                    }
                }
            }
            i += 1;
        }
        proof {
            assert(old_entries.take(n as int) =~= old_entries);
        }
        self.entries = kept;
        stopped
    }

    /// A pass over the notes that found the reminders `found`, in order. Each
    /// reminder found that is not tracked gets a countdown, exactly once
    /// however often the pass found it, with task ids counted up from
    /// `first_task` in the order found; a tracked reminder found again keeps
    /// its entry as it is; a tracked reminder not found stops being tracked,
    /// and its task, if one runs, is to be stopped. Afterwards exactly the
    /// reminders found are tracked.
    pub fn run_pass(&mut self, found: &Vec<ReminderKey>, first_task: u64) -> (r: PassActions)
        requires
            first_task + found@.len() <= u64::MAX,
        ensures
            final(self)@.dom() == keys_of(found@),
            forall|k: ReminderKeyView|
                #![trigger final(self)@[k]]
                old(self)@.contains_key(k) && keys_of(found@).contains(k) ==> final(self)@[k]
                    == old(self)@[k],
            forall|j: int|
                #![trigger r.started@[j]]
                0 <= j < r.started@.len() ==> {
                    &&& r.started@[j].task == first_task + j
                    &&& keys_of(found@).contains(r.started@[j].key@)
                    &&& !old(self)@.contains_key(r.started@[j].key@)
                    &&& final(self)@[r.started@[j].key@] == Some(r.started@[j].task)
                },
            forall|k: ReminderKeyView|
                #![trigger keys_of(found@).contains(k)]
                keys_of(found@).contains(k) && !old(self)@.contains_key(k) ==> exists|j: int|
                    0 <= j < r.started@.len() && r.started@[j].key@ == k,
            forall|a: int, c: int|
                0 <= a < c < r.started@.len() ==> r.started@[a].key@ != r.started@[c].key@,
            forall|t: u64|
                #![trigger r.stopped@.contains(t)]
                r.stopped@.contains(t) <==> stopped_tasks(old(self)@, keys_of(found@)).contains(t),
    {
        let ghost before = self@;
        let mut started: Vec<CountdownStart> = Vec::new();
        let mut next: u64 = first_task;
        let mut i: usize = 0;
        proof {
            assert(keys_of(found@.take(0)) =~= Set::<ReminderKeyView>::empty());
            assert(self@.dom() =~= before.dom().union(keys_of(found@.take(0))));
        }
        while i < found.len()
            invariant
                before == old(self)@,
                first_task + found@.len() <= u64::MAX,
                0 <= i <= found@.len(),
                started@.len() <= i,
                next == first_task + started@.len(),
                self@.dom() == before.dom().union(keys_of(found@.take(i as int))),
                forall|k: ReminderKeyView| #[trigger] before.contains_key(k) ==> self@[k] == before[k],
                forall|j: int|
                    #![trigger started@[j]]
                    0 <= j < started@.len() ==> {
                        &&& started@[j].task == first_task + j
                        &&& keys_of(found@.take(i as int)).contains(started@[j].key@)
                        &&& !before.contains_key(started@[j].key@)
                        &&& self@[started@[j].key@] == Some(started@[j].task)
                    },
                forall|k: ReminderKeyView|
                    #![trigger keys_of(found@.take(i as int)).contains(k)]
                    keys_of(found@.take(i as int)).contains(k) && !before.contains_key(k) ==> exists|j: int|
                        0 <= j < started@.len() && started@[j].key@ == k,
                forall|a: int, c: int|
                    0 <= a < c < started@.len() ==> started@[a].key@ != started@[c].key@,
            decreases found.len() - i,
        {
            let ghost mid = self@;
            let ghost started_before = started@;
            let ghost ks_before = keys_of(found@.take(i as int));
            proof {
                lemma_keys_of_step(found@, i as int);
            }
            if self.observe(&found[i], next) {
                let key = found[i].duplicate();
                started.push(CountdownStart { key, task: next });
                next = next + 1;
                proof {
                    let k = found@[i as int]@;
                    assert forall|j: int| 0 <= j < started@.len() implies {
                        &&& #[trigger] started@[j].task == first_task + j
                        &&& keys_of(found@.take(i + 1)).contains(started@[j].key@)
                        &&& !before.contains_key(started@[j].key@)
                        &&& self@[started@[j].key@] == Some(started@[j].task)
                    } by {
                        if j < started_before.len() {
                            assert(started@[j] == started_before[j]);
                            assert(mid.contains_key(started_before[j].key@));
                        }
                    }
                    assert forall|a: int, c: int| 0 <= a < c < started@.len() implies started@[a].key@
                        != started@[c].key@ by {
                        assert(started@[a] == started_before[a]);
                        if c < started_before.len() {
                            assert(started@[c] == started_before[c]);
                        } else {
                            assert(mid.contains_key(started_before[a].key@));
                        }
                    }
                    assert forall|k2: ReminderKeyView|
                        #[trigger] keys_of(found@.take(i + 1)).contains(k2) && !before.contains_key(k2)
                        implies exists|j: int| 0 <= j < started@.len() && started@[j].key@ == k2 by {
                        if k2 == k {
                            assert(started@[started@.len() - 1].key@ == k2);
                        } else {
                            assert(ks_before.contains(k2));
                            let j = choose|j: int| 0 <= j < started_before.len() && started_before[j].key@ == k2;
                            assert(started@[j] == started_before[j]);
                        }
                    }
                    assert(self@.dom() =~= before.dom().union(keys_of(found@.take(i + 1))));
                }
            } else {
                proof {
                    let k = found@[i as int]@;
                    assert forall|k2: ReminderKeyView|
                        #[trigger] keys_of(found@.take(i + 1)).contains(k2) && !before.contains_key(k2)
                        implies exists|j: int| 0 <= j < started@.len() && started@[j].key@ == k2 by {
                        if k2 != k {
                            assert(ks_before.contains(k2));
                        } else {
                            assert(mid.contains_key(k));
                            if !ks_before.contains(k) {
                                assert(before.contains_key(k));
                            }
                        }
                    }
                    assert(self@.dom() =~= before.dom().union(keys_of(found@.take(i + 1))));
                }
            }
            i += 1;
        }
        let ghost mid = self@;
        proof {
            assert(found@.take(found@.len() as int) =~= found@);
        }
        let stopped = self.end_pass(found);
        proof {
            let fk = keys_of(found@);
            assert(self@.dom() =~= fk);
            assert forall|t: u64| stopped_tasks(mid, fk).contains(t) <==> stopped_tasks(before, fk).contains(t) by {
                if stopped_tasks(mid, fk).contains(t) {
                    let k = choose|k: ReminderKeyView| mid.contains_key(k) && !fk.contains(k) && mid[k] == Some(t);
                    assert(before.contains_key(k));
                }
                if stopped_tasks(before, fk).contains(t) {
                    let k = choose|k: ReminderKeyView| before.contains_key(k) && !fk.contains(k) && before[k] == Some(t);
                    assert(mid.contains_key(k) && mid[k] == Some(t));
                }
            }
        }
        PassActions { started, stopped }
    }

    /// The tasks `finished` are over. A daily reminder whose countdown is
    /// one of them stops being tracked, so that the next pass that finds it
    /// counts it down again; any other reminder they counted down stays
    /// tracked, with no task.
    pub fn clear_finished(&mut self, finished: &Vec<u64>)
        ensures
            final(self)@ == clear_spec(old(self)@, finished@),
    {
        proof {
            use_type_invariant(&*self);
        }
        let ghost old_entries = self.entries@;
        let mut rest: Vec<TrackedReminder> = Vec::new();
        std::mem::swap(&mut rest, &mut self.entries);
        let mut out: Vec<TrackedReminder> = Vec::new();
        let mut i: usize = 0;
        proof {
            assert(old_entries.take(0) =~= Seq::<TrackedReminder>::empty());
            assert(entries_map(out@) =~= clear_spec(entries_map(old_entries.take(0)), finished@));
        }
        while i < rest.len()
            invariant
                rest@ == old_entries,
                keys_distinct(old_entries),
                0 <= i <= rest@.len(),
                keys_distinct(out@),
                entries_map(out@) == clear_spec(entries_map(old_entries.take(i as int)), finished@),
            decreases rest.len() - i,
        {
            let ghost k = old_entries[i as int].key@;
            let ghost v = old_entries[i as int].task;
            let ghost m = entries_map(old_entries.take(i as int));
            proof {
                lemma_take_step(old_entries, i as int);
                lemma_fresh_key(old_entries, i as int);
            }
            let (finished_now, task) = match rest[i].task {
                Some(t) => {
                    if contains_task(finished, t) {
                        (true, None)
                    } else {
                        (false, Some(t))
                    }
                },
                None => (false, None),
            };
            let p = &rest[i].key.time_parts;
            let daily = p.year.is_none() && p.month.is_none() && p.day.is_none()
                && p.hour.is_some() && p.minute.is_some() && !rest[i].key.completed_checked;
            if daily && finished_now {
                proof {
                    assert(daily_finished(k, v, finished@));
                    assert(entries_map(out@) =~= clear_spec(m.insert(k, v), finished@));
                }
            } else {
                let ghost out_before = out@;
                proof {
                    assert(!daily_finished(k, v, finished@));
                    assert(task == task_after(v, finished@));
                    lemma_entries_map(out_before);
                    if entries_map(out_before).contains_key(k) {
                        assert(m.contains_key(k));
                    }
                }
                let key = rest[i].key.duplicate();
                out.push(TrackedReminder { key, task });
                proof {
                    assert(out@.drop_last() =~= out_before);
                    assert forall|a: int, c: int| 0 <= a < c < out@.len() implies out@[a].key@
                        != out@[c].key@ by {
                        assert(out@[a] == out_before[a]);
                        if c < out@.len() - 1 {
                            assert(out@[c] == out_before[c]);
                        } else {
                            assert(entries_map(out_before).contains_key(out_before[a].key@));
                        }
                    }
                    assert(entries_map(out@) =~= clear_spec(m.insert(k, v), finished@));
                }
            }
            i += 1;
        }
        proof {
            assert(old_entries.take(rest@.len() as int) =~= old_entries);
        }
        self.entries = out;
    }
}

} // verus!

verus! {

/// What `ReminderTracker::observe` does to the tracked map.
pub open spec fn observe_spec(m: Map<ReminderKeyView, Option<u64>>, k: ReminderKeyView, task: u64) -> Map<
    ReminderKeyView,
    Option<u64>,
> {
    if m.contains_key(k) {
        m
    } else {
        m.insert(k, Some(task))
    }
}

/// Observing a reminder a second time starts nothing: `observe` reports a
/// start only for a reminder that is not tracked, and then tracks it.
pub proof fn law_observe_starts_once(m: Map<ReminderKeyView, Option<u64>>, k: ReminderKeyView, t1: u64, t2: u64)
    ensures
        observe_spec(m, k, t1).contains_key(k),
        observe_spec(observe_spec(m, k, t1), k, t2) == observe_spec(m, k, t1),
{
}

/// Clearing finished tasks forgets exactly the daily reminders whose
/// countdown finished, and leaves running tasks as they are.
pub proof fn law_clear_forgets_only_finished_daily_reminders(
    m: Map<ReminderKeyView, Option<u64>>,
    finished: Seq<u64>,
)
    ensures
        forall|k: ReminderKeyView|
            #![trigger clear_spec(m, finished).contains_key(k)]
            clear_spec(m, finished).contains_key(k) <==> m.contains_key(k) && !daily_finished(
                k,
                m[k],
                finished,
            ),
        forall|k: ReminderKeyView|
            #![trigger clear_spec(m, finished)[k]]
            m.contains_key(k) && (m[k] matches Some(t) && !finished.contains(t))
                ==> clear_spec(m, finished)[k] == m[k],
{
}

/// Every reminder with an hour and a minute, no year, month or day, and no
/// ticked box repeats daily, whatever its seconds: once its countdown has
/// finished, clearing forgets it, and observing it again starts a new
/// countdown.
pub proof fn law_undated_timed_reminder_repeats(
    m: Map<ReminderKeyView, Option<u64>>,
    k: ReminderKeyView,
    t: u64,
    finished: Seq<u64>,
    next: u64,
)
    requires
        k.time_parts.year is None,
        k.time_parts.month is None,
        k.time_parts.day is None,
        k.time_parts.hour is Some,
        k.time_parts.minute is Some,
        !k.completed_checked,
        m.contains_key(k),
        m[k] == Some(t),
        finished.contains(t),
    ensures
        repeats_daily(k),
        !clear_spec(m, finished).contains_key(k),
        observe_spec(clear_spec(m, finished), k, next)[k] == Some(next),
{
}

/// A reminder with a date, a ticked box, or no hour or minute never repeats:
/// once its countdown has finished it stays tracked with no task.
pub proof fn law_other_reminders_do_not_repeat(
    m: Map<ReminderKeyView, Option<u64>>,
    k: ReminderKeyView,
    finished: Seq<u64>,
)
    requires
        k.time_parts.year is Some || k.time_parts.month is Some || k.time_parts.day is Some
            || k.time_parts.hour is None || k.time_parts.minute is None || k.completed_checked,
        m.contains_key(k),
    ensures
        !repeats_daily(k),
        clear_spec(m, finished).contains_key(k),
{
}

/// Once the countdown of a reminder with a time of day and no date has
/// finished, the next pass that finds it starts a new countdown for it; any
/// other reminder (one with a date, a ticked one, or one with no time)
/// whose countdown finished stays tracked, and finding it again starts
/// nothing.
pub proof fn law_daily_reminder_counts_down_again(
    m: Map<ReminderKeyView, Option<u64>>,
    k: ReminderKeyView,
    t: u64,
    finished: Seq<u64>,
    next: u64,
)
    requires
        m.contains_key(k),
        m[k] == Some(t),
        finished.contains(t),
    ensures
        repeats_daily(k) ==> !clear_spec(m, finished).contains_key(k),
        repeats_daily(k) ==> observe_spec(clear_spec(m, finished), k, next)[k] == Some(next),
        !repeats_daily(k) ==> clear_spec(m, finished).contains_key(k) && clear_spec(m, finished)[k]
            is None,
        !repeats_daily(k) ==> observe_spec(clear_spec(m, finished), k, next) == clear_spec(
            m,
            finished,
        ),
{
}

} // verus!
