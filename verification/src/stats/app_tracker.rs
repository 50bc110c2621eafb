//! Per-process input counter map.

use vstd::prelude::*;

use crate::stats::table::KeyedTable;

verus! {

/// Per-application input statistics snapshot.
#[derive(Debug, Default, Clone, Copy)]
pub struct AppEntry {
    pub keystrokes: u64,
    pub characters: u64,
    pub ctrl_c: u64,
    pub ctrl_v: u64,
}

/// The entry for a process that has not been seen yet.
pub open spec fn zero_entry() -> AppEntry {
    AppEntry { keystrokes: 0, characters: 0, ctrl_c: 0, ctrl_v: 0 }
}

/// The entry recorded for `process` in `m`, or all zeros when it has none.
pub open spec fn entry_of(m: Map<Seq<char>, AppEntry>, process: Seq<char>) -> AppEntry {
    if m.contains_key(process) { m[process] } else { zero_entry() }
}

/// Which of the four per-process counters an event increments.
pub enum AppField {
    Keystrokes,
    Characters,
    CtrlC,
    CtrlV,
}

/// The value of one counter of an entry.
pub open spec fn field_value(e: AppEntry, f: AppField) -> u64 {
    match f {
        AppField::Keystrokes => e.keystrokes,
        AppField::Characters => e.characters,
        AppField::CtrlC => e.ctrl_c,
        AppField::CtrlV => e.ctrl_v,
    }
}

/// `e` with counter `f` one higher and the three others unchanged.
pub open spec fn bumped(e: AppEntry, f: AppField) -> AppEntry {
    match f {
        AppField::Keystrokes => AppEntry { keystrokes: (e.keystrokes + 1) as u64, ..e },
        AppField::Characters => AppEntry { characters: (e.characters + 1) as u64, ..e },
        AppField::CtrlC => AppEntry { ctrl_c: (e.ctrl_c + 1) as u64, ..e },
        AppField::CtrlV => AppEntry { ctrl_v: (e.ctrl_v + 1) as u64, ..e },
    }
}
/// The counters after one event per `(process, field)` pair of `calls`, in
/// order, each bumping that process's counter.
pub open spec fn after_counts(m: Map<Seq<char>, AppEntry>, calls: Seq<(Seq<char>, AppField)>) -> Map<
    Seq<char>,
    AppEntry,
>
    decreases calls.len(),
{
    if calls.len() == 0 {
        m
    } else {
        let prev = after_counts(m, calls.drop_last());
        let (p, f) = calls.last();
        prev.insert(p, bumped(entry_of(prev, p), f))
    }
}

/// How many of `calls` bump counter `f` of `process`.
pub open spec fn count_calls(calls: Seq<(Seq<char>, AppField)>, process: Seq<char>, f: AppField) -> nat
    decreases calls.len(),
{
    if calls.len() == 0 {
        0
    } else {
        count_calls(calls.drop_last(), process, f) + if calls.last() == (process, f) { 1nat } else { 0nat }
    }
}

/// Whether any of `calls` is for `process`.
pub open spec fn mentions(calls: Seq<(Seq<char>, AppField)>, process: Seq<char>) -> bool {
    exists|i: int| 0 <= i < calls.len() && (#[trigger] calls[i]).0 == process
}

/// Law: the counters hold exactly the events counted since the map was
/// created or last drained — after any sequence of `add_*` calls, counter
/// `f` of a process is its earlier value plus the number of calls for that
/// process and counter, and the processes recorded are the earlier ones and
/// those named by a call. (A drained map starts from no process at all.)
/// Counters are `u64`, so no total may pass `u64::MAX`.
pub proof fn law_counts_are_calls(m: Map<Seq<char>, AppEntry>, calls: Seq<(Seq<char>, AppField)>)
    requires
        forall|p: Seq<char>, f: AppField| field_value(entry_of(m, p), f) + #[trigger] count_calls(calls, p, f)
            <= u64::MAX,
    ensures
        forall|p: Seq<char>, f: AppField| #[trigger] field_value(entry_of(after_counts(m, calls), p), f)
            == field_value(entry_of(m, p), f) + count_calls(calls, p, f),
        forall|p: Seq<char>| #[trigger] after_counts(m, calls).contains_key(p) <==> (m.contains_key(p)
            || mentions(calls, p)),
    decreases calls.len(),
{
    if calls.len() > 0 {
        let init = calls.drop_last();
        assert forall|p: Seq<char>, f: AppField| field_value(entry_of(m, p), f) + #[trigger] count_calls(init, p, f)
            <= u64::MAX by {
            assert(count_calls(init, p, f) <= count_calls(calls, p, f));
        }
        law_counts_are_calls(m, init);
        let prev = after_counts(m, init);
        let (p0, f0) = calls.last();
        assert forall|p: Seq<char>, f: AppField| #[trigger] field_value(entry_of(after_counts(m, calls), p), f)
            == field_value(entry_of(m, p), f) + count_calls(calls, p, f) by {
            assert(field_value(entry_of(prev, p), f) == field_value(entry_of(m, p), f) + count_calls(init, p, f));
            if p == p0 {
                assert(field_value(entry_of(m, p0), f0) + count_calls(calls, p0, f0) <= u64::MAX);
            }
        }
        assert forall|p: Seq<char>| #[trigger] after_counts(m, calls).contains_key(p) <==> (m.contains_key(p)
            || mentions(calls, p)) by {
            if mentions(init, p) {
                let i = choose|i: int| 0 <= i < init.len() && (#[trigger] init[i]).0 == p;
                assert(calls[i] == init[i]);
            }
            if mentions(calls, p) && p != p0 {
                let i = choose|i: int| 0 <= i < calls.len() && (#[trigger] calls[i]).0 == p;
                assert(i != calls.len() - 1);
                assert(init[i] == calls[i]);
            }
            if p == p0 {
                assert(calls[calls.len() - 1].0 == p);
            }
        }
    }
}


/// Per-process counter map.
///
/// The input event loop updates it on every event; the writer drains it
/// periodically via [`AppCounterMap::snapshot_and_clear`].
pub struct AppCounterMap {
    table: KeyedTable<AppEntry>,
}

impl View for AppCounterMap {
    type V = Map<Seq<char>, AppEntry>;

    closed spec fn view(&self) -> Map<Seq<char>, AppEntry> {
        self.table@
    }
}

impl AppCounterMap {
    /// Internal consistency of the underlying table.
    pub closed spec fn wf(&self) -> bool {
        self.table.wf()
    }

    /// The processes in the order in which they were first counted.
    pub closed spec fn processes(&self) -> Seq<Seq<char>> {
        self.table.key_seq()
    }

    /// The recorded processes are exactly the listed ones, each listed once.
    pub proof fn lemma_processes(&self)
        requires
            self.wf(),
        ensures
            self.processes().no_duplicates(),
            forall|k: Seq<char>| #[trigger] self@.contains_key(k) <==> self.processes().contains(k),
            self@.dom().finite(),
            self@.len() == self.processes().len(),
    {
        self.table.lemma_keys();
    }

    /// An empty map.
    pub fn new() -> (m: Self)
        ensures
            m.wf(),
            m@ == Map::<Seq<char>, AppEntry>::empty(),
            m.processes() == Seq::<Seq<char>>::empty(),
    {
        AppCounterMap { table: KeyedTable::new() }
    }

    fn bump(&mut self, process: &str, f: AppField)
        requires
            old(self).wf(),
            field_value(entry_of(old(self)@, process@), f) < u64::MAX,
        ensures
            final(self).wf(),
            final(self)@ == old(self)@.insert(process@, bumped(entry_of(old(self)@, process@), f)),
    {
        let mut e = match self.table.get(process) {
            Some(e) => e,
            None => AppEntry { keystrokes: 0, characters: 0, ctrl_c: 0, ctrl_v: 0 },
        };
        match f {
            AppField::Keystrokes => { e.keystrokes = e.keystrokes + 1; },
            AppField::Characters => { e.characters = e.characters + 1; },
            AppField::CtrlC => { e.ctrl_c = e.ctrl_c + 1; },
            AppField::CtrlV => { e.ctrl_v = e.ctrl_v + 1; },
        }
        self.table.set(process, e);
    }

    /// Increment the keystroke counter for `process`.
    pub fn add_keystroke(&mut self, process: &str)
        requires
            old(self).wf(),
            entry_of(old(self)@, process@).keystrokes < u64::MAX,
        ensures
            final(self).wf(),
            final(self)@ == old(self)@.insert(
                process@,
                bumped(entry_of(old(self)@, process@), AppField::Keystrokes),
            ),
    {
        self.bump(process, AppField::Keystrokes);
    }

    /// Increment the character counter for `process`.
    pub fn add_character(&mut self, process: &str)
        requires
            old(self).wf(),
            entry_of(old(self)@, process@).characters < u64::MAX,
        ensures
            final(self).wf(),
            final(self)@ == old(self)@.insert(
                process@,
                bumped(entry_of(old(self)@, process@), AppField::Characters),
            ),
    {
        self.bump(process, AppField::Characters);
    }

    /// Increment the Ctrl+C counter for `process`.
    pub fn add_ctrl_c(&mut self, process: &str)
        requires
            old(self).wf(),
            entry_of(old(self)@, process@).ctrl_c < u64::MAX,
        ensures
            final(self).wf(),
            final(self)@ == old(self)@.insert(
                process@,
                bumped(entry_of(old(self)@, process@), AppField::CtrlC),
            ),
    {
        self.bump(process, AppField::CtrlC);
    }

    /// Increment the Ctrl+V counter for `process`.
    pub fn add_ctrl_v(&mut self, process: &str)
        requires
            old(self).wf(),
            entry_of(old(self)@, process@).ctrl_v < u64::MAX,
        ensures
            final(self).wf(),
            final(self)@ == old(self)@.insert(
                process@,
                bumped(entry_of(old(self)@, process@), AppField::CtrlV),
            ),
    {
        self.bump(process, AppField::CtrlV);
    }

    /// Drain all per-process counters and return them.
    /// After this call the map is empty.
    pub fn snapshot_and_clear(&mut self) -> (snap: AppCounterMap)
        requires
            old(self).wf(),
        ensures
            snap.wf(),
            snap@ == old(self)@,
            snap.processes() == old(self).processes(),
            final(self).wf(),
            final(self)@ == Map::<Seq<char>, AppEntry>::empty(),
            final(self).processes() == Seq::<Seq<char>>::empty(),
    {
        let mut snap = AppCounterMap::new();
        std::mem::swap(&mut snap, self);
        snap
    }

    /// The entry recorded for `process`, if it has one.
    pub fn get(&self, process: &str) -> (r: Option<AppEntry>)
        ensures
            r == (if self@.contains_key(process@) { Some(self@[process@]) } else { None::<AppEntry> }),
    {
        self.table.get(process)
    }

    /// The entry recorded for `process`, or all zeros when it has none.
    pub fn entry(&self, process: &str) -> (r: AppEntry)
        ensures
            r == entry_of(self@, process@),
    {
        match self.table.get(process) {
            Some(e) => e,
            None => AppEntry { keystrokes: 0, characters: 0, ctrl_c: 0, ctrl_v: 0 },
        }
    }

    /// Whether no process has been counted.
    pub fn is_empty(&self) -> (r: bool)
        ensures
            r == (self@.dom() == Set::<Seq<char>>::empty()),
    {
        self.table.is_empty()
    }

    /// Number of processes counted.
    pub fn len(&self) -> (r: usize)
        requires
            self.wf(),
        ensures
            r == self@.len(),
            r == self.processes().len(),
    {
        self.table.len()
    }

    /// The `i`-th process in first-counted order.
    pub fn process_at(&self, i: usize) -> (p: &String)
        requires
            i < self.processes().len(),
        ensures
            p@ == self.processes()[i as int],
    {
        self.table.key_at(i)
    }
}

} // verus!
