//! Flush planning for the 30-second writer: which rows to upsert and when.

use vstd::prelude::*;

use crate::stats::app_tracker::{AppCounterMap, AppEntry};
use crate::stats::counters::CounterSnapshot;
use crate::stats::lang_tracker::LangSnapshot;
use crate::stats::table::KeyedTable;

verus! {

/// Seconds between two periodic flushes.
pub const FLUSH_INTERVAL_SECS: u64 = 30;
/// Milliseconds between two checks of the stop flag.
pub const POLL_INTERVAL_MILLIS: u64 = 200;

/// Returns today's date as `YYYY-MM-DD` in the local timezone.
/// Which date it is depends on the clock and the time zone.
pub fn current_date() -> (r: String)
    ensures
        r@.len() >= 10,
{
    crate::cli::clock::local_today()
}

/// What the writer loop does after one poll interval.
pub enum WriterAction {
    /// Stop was requested: flush everything one last time and exit.
    FinalFlush,
    /// The flush interval has elapsed: flush and keep going.
    PeriodicFlush,
    /// Nothing to do yet.
    Wait,
}

/// The writer's decision after a poll: shutdown wins over the periodic flush,
/// which is due once `FLUSH_INTERVAL_SECS` have passed since the last one.
pub fn writer_step(stop_requested: bool, secs_since_flush: u64) -> (a: WriterAction)
    ensures
        a == (if stop_requested {
            WriterAction::FinalFlush
        } else if secs_since_flush >= FLUSH_INTERVAL_SECS {
            WriterAction::PeriodicFlush
        } else {
            WriterAction::Wait
        }),
{
    if stop_requested {
        WriterAction::FinalFlush
    } else if secs_since_flush >= FLUSH_INTERVAL_SECS {
        WriterAction::PeriodicFlush
    } else {
        WriterAction::Wait
    }
}

/// Whether an entry holds any non-zero counter.
pub open spec fn entry_has_data(e: AppEntry) -> bool {
    e.keystrokes != 0 || e.characters != 0 || e.ctrl_c != 0 || e.ctrl_v != 0
}

/// One `app_stats` upsert.
pub struct AppFlushRow {
    pub process_name: String,
    pub entry: AppEntry,
}

/// One `language_stats` upsert.
pub struct LangFlushRow {
    pub language: String,
    pub characters: u64,
    pub focus_seconds: u64,
}

/// The rows as (process, entry) pairs.
pub open spec fn app_rows_view(rows: Seq<AppFlushRow>) -> Seq<(Seq<char>, AppEntry)> {
    rows.map_values(|r: AppFlushRow| (r.process_name@, r.entry))
}

/// The rows as (language, characters, focus seconds) triples.
pub open spec fn lang_rows_view(rows: Seq<LangFlushRow>) -> Seq<(Seq<char>, u64, u64)> {
    rows.map_values(|r: LangFlushRow| (r.language@, r.characters, r.focus_seconds))
}

/// The `app_stats` upserts for the processes `keys` of `m`, in that order,
/// skipping entries whose four counters are all zero.
pub open spec fn app_flush_rows(keys: Seq<Seq<char>>, m: Map<Seq<char>, AppEntry>) -> Seq<
    (Seq<char>, AppEntry),
>
    decreases keys.len(),
{
    if keys.len() == 0 {
        Seq::empty()
    } else {
        let k = keys.last();
        app_flush_rows(keys.drop_last(), m) + if entry_has_data(m[k]) {
            seq![(k, m[k])]
        } else {
            Seq::empty()
        }
    }
}

/// The count for `k`, zero when absent.
pub open spec fn count_or_zero(m: Map<Seq<char>, u64>, k: Seq<char>) -> u64 {
    if m.contains_key(k) { m[k] } else { 0 }
}

/// The `language_stats` upserts for languages `keys`: each with its
/// character count and focus seconds (zero when absent), skipping languages
/// where both are zero.
pub open spec fn lang_flush_rows(keys: Seq<Seq<char>>, focus: Map<Seq<char>, u64>, chars: Map<Seq<char>, u64>) -> Seq<
    (Seq<char>, u64, u64),
>
    decreases keys.len(),
{
    if keys.len() == 0 {
        Seq::empty()
    } else {
        let k = keys.last();
        let c = count_or_zero(chars, k);
        let f = count_or_zero(focus, k);
        lang_flush_rows(keys.drop_last(), focus, chars) + if c != 0 || f != 0 {
            seq![(k, c, f)]
        } else {
            Seq::empty()
        }
    }
}

/// The languages of a snapshot: those with focus seconds, then those with
/// only typed characters.
pub open spec fn snapshot_languages(focus_keys: Seq<Seq<char>>, char_keys: Seq<Seq<char>>, focus: Map<
    Seq<char>,
    u64,
>) -> Seq<Seq<char>> {
    focus_keys + char_keys.filter(|k: Seq<char>| !focus.contains_key(k))
}

/// The `app_stats` upserts for a drained per-process map: every process
/// with a non-zero counter, in first-counted order.
pub fn app_rows_to_flush(entries: &AppCounterMap) -> (rows: Vec<AppFlushRow>)
    requires
        entries.wf(),
    ensures
        app_rows_view(rows@) == app_flush_rows(entries.processes(), entries@),
{
    proof { entries.lemma_processes(); }
    let n = entries.len();
    let mut rows: Vec<AppFlushRow> = Vec::new();
    let mut i: usize = 0;
    while i < n
        invariant
            entries.wf(),
            n == entries.processes().len(),
            i <= n,
            forall|k: Seq<char>| #[trigger] entries@.contains_key(k) <==> entries.processes().contains(k),
            app_rows_view(rows@) == app_flush_rows(entries.processes().take(i as int), entries@),
        decreases n - i,
    {
        let p = entries.process_at(i);
        assert(entries.processes().contains(p@));
        let e = entries.get(p.as_str()).unwrap();
        assert(entries.processes().take(i + 1).drop_last() =~= entries.processes().take(i as int));
        if e.keystrokes != 0 || e.characters != 0 || e.ctrl_c != 0 || e.ctrl_v != 0 {
            rows.push(AppFlushRow { process_name: p.clone(), entry: e });
        }
        i = i + 1;
        assert(app_rows_view(rows@) =~= app_flush_rows(entries.processes().take(i as int), entries@));
    }
    assert(entries.processes().take(n as int) =~= entries.processes());
    rows
}

fn count_in(t: &KeyedTable<u64>, k: &str) -> (c: u64)
    ensures
        c == count_or_zero(t@, k@),
{
    match t.get(k) {
        Some(c) => c,
        None => 0,
    }
}

/// The `language_stats` upserts for a drained language snapshot: every
/// language with focus seconds or typed characters, each once.
pub fn lang_rows_to_flush(snap: &LangSnapshot) -> (rows: Vec<LangFlushRow>)
    requires
        snap.wf(),
    ensures
        lang_rows_view(rows@) == lang_flush_rows(
            snapshot_languages(snap.focus_seconds.key_seq(), snap.char_counts.key_seq(), snap.focus_seconds@),
            snap.focus_seconds@,
            snap.char_counts@,
        ),
{
    let ghost focus = snap.focus_seconds@;
    let ghost chars = snap.char_counts@;
    let ghost fk = snap.focus_seconds.key_seq();
    let ghost ck = snap.char_counts.key_seq();
    let ghost pred = |k: Seq<char>| !focus.contains_key(k);
    let mut rows: Vec<LangFlushRow> = Vec::new();
    let nf = snap.focus_seconds.len();
    let mut i: usize = 0;
    while i < nf
        invariant
            snap.wf(),
            focus == snap.focus_seconds@,
            chars == snap.char_counts@,
            fk == snap.focus_seconds.key_seq(),
            nf == fk.len(),
            i <= nf,
            lang_rows_view(rows@) == lang_flush_rows(fk.take(i as int), focus, chars),
        decreases nf - i,
    {
        let k = snap.focus_seconds.key_at(i);
        let f = count_in(&snap.focus_seconds, k.as_str());
        let c = count_in(&snap.char_counts, k.as_str());
        assert(fk.take(i + 1).drop_last() =~= fk.take(i as int));
        if c != 0 || f != 0 {
            rows.push(LangFlushRow { language: k.clone(), characters: c, focus_seconds: f });
        }
        i = i + 1;
        assert(lang_rows_view(rows@) =~= lang_flush_rows(fk.take(i as int), focus, chars));
    }
    assert(fk.take(nf as int) =~= fk);
    let nc = snap.char_counts.len();
    let mut j: usize = 0;
    while j < nc
        invariant
            snap.wf(),
            focus == snap.focus_seconds@,
            chars == snap.char_counts@,
            fk == snap.focus_seconds.key_seq(),
            ck == snap.char_counts.key_seq(),
            pred == (|k: Seq<char>| !focus.contains_key(k)),
            nc == ck.len(),
            j <= nc,
            lang_rows_view(rows@) == lang_flush_rows(fk + ck.take(j as int).filter(pred), focus, chars),
        decreases nc - j,
    {
        let k = snap.char_counts.key_at(j);
        let ghost before = ck.take(j as int).filter(pred);
        assert(ck.take(j + 1).drop_last() =~= ck.take(j as int));
        assert(ck.take(j + 1).filter(pred) == if pred(k@) { before.push(k@) } else { before }) by {
            reveal(Seq::filter);
        }
        if !snap.focus_seconds.contains_key(k.as_str()) {
            let f = count_in(&snap.focus_seconds, k.as_str());
            let c = count_in(&snap.char_counts, k.as_str());
            assert((fk + before).push(k@) =~= fk + before.push(k@));
            assert((fk + before.push(k@)).drop_last() =~= fk + before);
            if c != 0 || f != 0 {
                rows.push(LangFlushRow { language: k.clone(), characters: c, focus_seconds: f });
            }
        }
        j = j + 1;
        assert(lang_rows_view(rows@) =~= lang_flush_rows(fk + ck.take(j as int).filter(pred), focus, chars));
    }
    assert(ck.take(nc as int) =~= ck);
    rows
}


proof fn lemma_filter_no_dup(s: Seq<Seq<char>>, pred: spec_fn(Seq<char>) -> bool)
    requires
        s.no_duplicates(),
    ensures
        s.filter(pred).no_duplicates(),
    decreases s.len(),
{
    reveal(Seq::filter);
    if s.len() > 0 {
        let init = s.drop_last();
        assert(init.no_duplicates());
        lemma_filter_no_dup(init, pred);
        let f = init.filter(pred);
        assert(s.filter(pred) == if pred(s.last()) { f.push(s.last()) } else { f });
        if pred(s.last()) {
            assert(!f.contains(s.last())) by {
                if f.contains(s.last()) {
                    init.lemma_filter_contains_rev(pred, s.last());
                    let j = choose|j: int| 0 <= j < init.len() && init[j] == s.last();
                    assert(s[j] == s[s.len() - 1]);
                }
            }
            assert forall|i: int, j: int| 0 <= i < j < f.push(s.last()).len() implies f.push(s.last())[i]
                != f.push(s.last())[j] by {
                if j == f.len() {
                    assert(f.contains(f[i]));
                }
            }
        }
    }
}

proof fn lemma_lang_rows_shape(keys: Seq<Seq<char>>, focus: Map<Seq<char>, u64>, chars: Map<Seq<char>, u64>)
    requires
        keys.no_duplicates(),
    ensures
        ({
            let rows = lang_flush_rows(keys, focus, chars);
            &&& forall|i: int| 0 <= i < rows.len() ==> keys.contains(#[trigger] rows[i].0)
                && rows[i].1 == count_or_zero(chars, rows[i].0) && rows[i].2 == count_or_zero(focus, rows[i].0)
                && (rows[i].1 != 0 || rows[i].2 != 0)
            &&& forall|i: int, j: int| 0 <= i < j < rows.len() ==> #[trigger] rows[i].0 != #[trigger] rows[j].0
            &&& forall|l: Seq<char>| keys.contains(l) && (count_or_zero(chars, l) != 0 || count_or_zero(focus, l) != 0)
                ==> exists|i: int| 0 <= i < rows.len() && #[trigger] rows[i].0 == l
        }),
    decreases keys.len(),
{
    if keys.len() > 0 {
        let k = keys.last();
        let init = keys.drop_last();
        assert(init.no_duplicates());
        lemma_lang_rows_shape(init, focus, chars);
        let prev = lang_flush_rows(init, focus, chars);
        let rows = lang_flush_rows(keys, focus, chars);
        assert(!init.contains(k)) by {
            if init.contains(k) {
                let j = choose|j: int| 0 <= j < init.len() && init[j] == k;
                assert(keys[j] == keys[keys.len() - 1]);
            }
        }
        assert forall|i: int| 0 <= i < rows.len() implies keys.contains(#[trigger] rows[i].0) && rows[i].1
            == count_or_zero(chars, rows[i].0) && rows[i].2 == count_or_zero(focus, rows[i].0) && (rows[i].1
            != 0 || rows[i].2 != 0) by {
            if i < prev.len() {
                assert(rows[i] == prev[i]);
                let j = choose|j: int| 0 <= j < init.len() && init[j] == prev[i].0;
                assert(keys[j] == init[j]);
            } else {
                assert(keys[keys.len() - 1] == k);
            }
        }
        assert forall|i: int, j: int| 0 <= i < j < rows.len() implies #[trigger] rows[i].0 != #[trigger] rows[j].0 by {
            if j >= prev.len() {
                assert(rows[i] == prev[i]);
                assert(init.contains(prev[i].0));
            } else {
                assert(rows[i] == prev[i] && rows[j] == prev[j]);
            }
        }
        assert forall|l: Seq<char>| keys.contains(l) && (count_or_zero(chars, l) != 0 || count_or_zero(focus, l) != 0)
            implies exists|i: int| 0 <= i < rows.len() && #[trigger] rows[i].0 == l by {
            if l == k {
                assert(rows[prev.len() as int].0 == l);
            } else {
                let j = choose|j: int| 0 <= j < keys.len() && keys[j] == l;
                assert(init[j] == l);
                let i = choose|i: int| 0 <= i < prev.len() && #[trigger] prev[i].0 == l;
                assert(rows[i] == prev[i]);
            }
        }
    }
}

/// Law: a language flush writes one row per language that has focus seconds
/// or typed characters in the snapshot, with both of its counts (zero when
/// absent), and no other row; no language is written twice.
pub proof fn law_each_language_flushed_once(snap: LangSnapshot)
    requires
        snap.wf(),
    ensures
        ({
            let focus = snap.focus_seconds@;
            let chars = snap.char_counts@;
            let rows = lang_flush_rows(
                snapshot_languages(snap.focus_seconds.key_seq(), snap.char_counts.key_seq(), focus),
                focus,
                chars,
            );
            &&& forall|i: int, j: int| 0 <= i < j < rows.len() ==> #[trigger] rows[i].0 != #[trigger] rows[j].0
            &&& forall|i: int| 0 <= i < rows.len() ==> (focus.contains_key(#[trigger] rows[i].0) || chars.contains_key(
                rows[i].0,
            )) && rows[i].1 == count_or_zero(chars, rows[i].0) && rows[i].2 == count_or_zero(focus, rows[i].0)
            &&& forall|l: Seq<char>| (count_or_zero(chars, l) != 0 || count_or_zero(focus, l) != 0) ==> exists|i: int|
                0 <= i < rows.len() && #[trigger] rows[i].0 == l
        }),
{
    let focus = snap.focus_seconds@;
    let chars = snap.char_counts@;
    let fk = snap.focus_seconds.key_seq();
    let ck = snap.char_counts.key_seq();
    snap.focus_seconds.lemma_keys();
    snap.char_counts.lemma_keys();
    let pred = |k: Seq<char>| !focus.contains_key(k);
    let extra = ck.filter(pred);
    let keys = snapshot_languages(fk, ck, focus);
    assert(keys == fk + extra);
    lemma_filter_no_dup(ck, pred);
    assert(keys.no_duplicates()) by {
        assert forall|i: int, j: int| 0 <= i < j < keys.len() implies keys[i] != keys[j] by {
            if j < fk.len() {
                assert(keys[i] == fk[i] && keys[j] == fk[j]);
            } else if i >= fk.len() {
                assert(keys[i] == extra[i - fk.len()] && keys[j] == extra[j - fk.len()]);
            } else {
                assert(keys[i] == fk[i] && keys[j] == extra[j - fk.len()]);
                assert(fk.contains(fk[i]));
                assert(pred(extra[j - fk.len()]));
            }
        }
    }
    lemma_lang_rows_shape(keys, focus, chars);
    let rows = lang_flush_rows(keys, focus, chars);
    assert forall|i: int| 0 <= i < rows.len() implies (focus.contains_key(#[trigger] rows[i].0)
        || chars.contains_key(rows[i].0)) by {
        let j = choose|j: int| 0 <= j < keys.len() && keys[j] == rows[i].0;
        if j < fk.len() {
            assert(fk.contains(keys[j]));
        } else {
            assert(keys[j] == extra[j - fk.len()]);
            assert(ck.contains(extra[j - fk.len()]));
        }
    }
    assert forall|l: Seq<char>| (count_or_zero(chars, l) != 0 || count_or_zero(focus, l) != 0) implies keys.contains(
        l,
    ) by {
        if focus.contains_key(l) {
            let j = choose|j: int| 0 <= j < fk.len() && fk[j] == l;
            assert(keys[j] == l);
        } else {
            assert(chars.contains_key(l));
            assert(ck.contains(l));
            let c = choose|c: int| 0 <= c < ck.len() && ck[c] == l;
            ck.lemma_filter_contains(pred, c);
            assert(extra.contains(l));
            let j = choose|j: int| 0 <= j < extra.len() && extra[j] == l;
            assert(keys[fk.len() + j] == l);
        }
    }
}

proof fn lemma_app_rows_shape(keys: Seq<Seq<char>>, m: Map<Seq<char>, AppEntry>)
    requires
        keys.no_duplicates(),
    ensures
        ({
            let rows = app_flush_rows(keys, m);
            &&& forall|i: int| 0 <= i < rows.len() ==> keys.contains(#[trigger] rows[i].0) && rows[i].1 == m[rows[i].0]
                && entry_has_data(rows[i].1)
            &&& forall|i: int, j: int| 0 <= i < j < rows.len() ==> #[trigger] rows[i].0 != #[trigger] rows[j].0
            &&& forall|p: Seq<char>| keys.contains(p) && entry_has_data(m[p]) ==> exists|i: int|
                0 <= i < rows.len() && #[trigger] rows[i].0 == p
        }),
    decreases keys.len(),
{
    if keys.len() > 0 {
        let k = keys.last();
        let init = keys.drop_last();
        assert(init.no_duplicates());
        lemma_app_rows_shape(init, m);
        let prev = app_flush_rows(init, m);
        let rows = app_flush_rows(keys, m);
        assert(!init.contains(k)) by {
            if init.contains(k) {
                let j = choose|j: int| 0 <= j < init.len() && init[j] == k;
                assert(keys[j] == keys[keys.len() - 1]);
            }
        }
        assert forall|i: int| 0 <= i < rows.len() implies keys.contains(#[trigger] rows[i].0) && rows[i].1
            == m[rows[i].0] && entry_has_data(rows[i].1) by {
            if i < prev.len() {
                assert(rows[i] == prev[i]);
                let j = choose|j: int| 0 <= j < init.len() && init[j] == prev[i].0;
                assert(keys[j] == init[j]);
            } else {
                assert(keys[keys.len() - 1] == k);
            }
        }
        assert forall|i: int, j: int| 0 <= i < j < rows.len() implies #[trigger] rows[i].0 != #[trigger] rows[j].0 by {
            if j >= prev.len() {
                assert(rows[i] == prev[i]);
                assert(init.contains(prev[i].0));
            } else {
                assert(rows[i] == prev[i] && rows[j] == prev[j]);
            }
        }
        assert forall|p: Seq<char>| keys.contains(p) && entry_has_data(m[p]) implies exists|i: int|
            0 <= i < rows.len() && #[trigger] rows[i].0 == p by {
            if p == k {
                assert(rows[prev.len() as int].0 == p);
            } else {
                let j = choose|j: int| 0 <= j < keys.len() && keys[j] == p;
                assert(init[j] == p);
                assert(init.contains(p));
                let i = choose|i: int| 0 <= i < prev.len() && #[trigger] prev[i].0 == p;
                assert(rows == prev + (if entry_has_data(m[k]) { seq![(k, m[k])] } else { Seq::empty() }));
                assert(rows[i] == prev[i]);
            }
        }
    }
}

/// Law: an app flush writes one row per recorded process that has a
/// non-zero counter, with that process's entry, and no other row; no process
/// is written twice.
pub proof fn law_each_app_flushed_once(apps: AppCounterMap)
    requires
        apps.wf(),
    ensures
        ({
            let rows = app_flush_rows(apps.processes(), apps@);
            &&& forall|i: int, j: int| 0 <= i < j < rows.len() ==> #[trigger] rows[i].0 != #[trigger] rows[j].0
            &&& forall|i: int| 0 <= i < rows.len() ==> apps@.contains_key(#[trigger] rows[i].0) && rows[i].1
                == apps@[rows[i].0] && entry_has_data(rows[i].1)
            &&& forall|p: Seq<char>| apps@.contains_key(p) && entry_has_data(apps@[p]) ==> exists|i: int|
                0 <= i < rows.len() && #[trigger] rows[i].0 == p
        }),
{
    apps.lemma_processes();
    lemma_app_rows_shape(apps.processes(), apps@);
}

/// Everything one flush writes.
pub struct FlushPlan {
    /// The `daily_stats` increment for the day.
    pub daily: CounterSnapshot,
    /// The `app_stats` upserts.
    pub app_rows: Vec<AppFlushRow>,
    /// The `language_stats` upserts.
    pub lang_rows: Vec<LangFlushRow>,
    /// Whether rows older than the retention period are pruned afterwards.
    pub cleanup: bool,
}

/// The rows a flush writes for drained counters, apps and languages.
pub open spec fn plan_matches(plan: FlushPlan, snap: CounterSnapshot, apps: AppCounterMap, langs: LangSnapshot) -> bool {
    &&& plan.daily == snap
    &&& app_rows_view(plan.app_rows@) == app_flush_rows(apps.processes(), apps@)
    &&& lang_rows_view(plan.lang_rows@) == lang_flush_rows(
        snapshot_languages(langs.focus_seconds.key_seq(), langs.char_counts.key_seq(), langs.focus_seconds@),
        langs.focus_seconds@,
        langs.char_counts@,
    )
}

/// Whether a drain found nothing at all.
pub open spec fn nothing_happened(snap: CounterSnapshot, apps: AppCounterMap, langs: LangSnapshot) -> bool {
    &&& snap.idle()
    &&& apps@.dom() == Set::<Seq<char>>::empty()
    &&& langs.focus_seconds@.dom() == Set::<Seq<char>>::empty()
    &&& langs.char_counts@.dom() == Set::<Seq<char>>::empty()
}

/// Plan the periodic flush of what was drained: nothing when nothing
/// happened since the last flush, else every non-empty row, followed by the
/// retention cleanup.
pub fn plan_periodic_flush(snap: CounterSnapshot, apps: &AppCounterMap, langs: &LangSnapshot) -> (plan: Option<
    FlushPlan,
>)
    requires
        apps.wf(),
        langs.wf(),
    ensures
        plan is None <==> nothing_happened(snap, *apps, *langs),
        plan matches Some(p) ==> plan_matches(p, snap, *apps, *langs) && p.cleanup,
{
    if snap.is_idle() && apps.is_empty() && langs.focus_seconds.is_empty() && langs.char_counts.is_empty() {
        return None;
    }
    Some(FlushPlan {
        daily: snap,
        app_rows: app_rows_to_flush(apps),
        lang_rows: lang_rows_to_flush(langs),
        cleanup: true,
    })
}

/// Plan the final flush at shutdown: the daily row always, every non-empty
/// app and language row, and no cleanup.
pub fn plan_final_flush(snap: CounterSnapshot, apps: &AppCounterMap, langs: &LangSnapshot) -> (plan: FlushPlan)
    requires
        apps.wf(),
        langs.wf(),
    ensures
        plan_matches(plan, snap, *apps, *langs),
        !plan.cleanup,
{
    FlushPlan {
        daily: snap,
        app_rows: app_rows_to_flush(apps),
        lang_rows: lang_rows_to_flush(langs),
        cleanup: false,
    }
}

} // verus!
