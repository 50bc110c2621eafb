//! Programming language focus tracking.

use vstd::prelude::*;

use crate::stats::table::KeyedTable;

verus! {

/// The number of ticks (seconds) a window must be active before its time is
/// counted.
pub const STABLE_THRESHOLD: u64 = 5;

/// The display language name for a lower-cased file extension.
pub open spec fn language_of(ext: Seq<char>) -> Seq<char> {
    if ext == "py"@ || ext == "pyw"@ { "Python"@ }
    else if ext == "js"@ || ext == "mjs"@ || ext == "cjs"@ { "JavaScript"@ }
    else if ext == "ts"@ || ext == "mts"@ || ext == "cts"@ { "TypeScript"@ }
    else if ext == "java"@ { "Java"@ }
    else if ext == "go"@ { "Go"@ }
    else if ext == "rs"@ { "Rust"@ }
    else if ext == "c"@ || ext == "h"@ { "C"@ }
    else if ext == "cpp"@ || ext == "cc"@ || ext == "cxx"@ || ext == "hpp"@ || ext == "hxx"@ { "C++"@ }
    else if ext == "cs"@ { "C#"@ }
    else if ext == "rb"@ || ext == "rake"@ { "Ruby"@ }
    else if ext == "php"@ { "PHP"@ }
    else if ext == "swift"@ { "Swift"@ }
    else if ext == "kt"@ || ext == "kts"@ { "Kotlin"@ }
    else if ext == "html"@ || ext == "htm"@ { "HTML"@ }
    else if ext == "css"@ || ext == "scss"@ || ext == "sass"@ || ext == "less"@ { "CSS"@ }
    else if ext == "sql"@ { "SQL"@ }
    else if ext == "sh"@ || ext == "bash"@ || ext == "zsh"@ || ext == "fish"@ { "Shell"@ }
    else if ext == "vue"@ { "Vue"@ }
    else if ext == "jsx"@ { "JSX"@ }
    else if ext == "tsx"@ { "TSX"@ }
    else { "Other"@ }
}

fn is_one_of(ext: &str, options: &[&str]) -> (r: bool)
    ensures
        r == exists|i: int| 0 <= i < options@.len() && options@[i]@ == ext@,
{
    let mut i: usize = 0;
    while i < options.len()
        invariant
            i <= options@.len(),
            forall|j: int| 0 <= j < i ==> options@[j]@ != ext@,
        decreases options@.len() - i,
    {
        if crate::text::same_text(options[i], ext) {
            return true;
        }
        i = i + 1;
    }
    false
}

/// Map a lower-cased file extension to a display language name.
/// Returns `"Other"` for unrecognised extensions.
pub fn ext_to_language(ext: &str) -> (r: &'static str)
    ensures
        r@ == language_of(ext@),
{
    if is_one_of(ext, &["py", "pyw"]) { "Python" }
    else if is_one_of(ext, &["js", "mjs", "cjs"]) { "JavaScript" }
    else if is_one_of(ext, &["ts", "mts", "cts"]) { "TypeScript" }
    else if is_one_of(ext, &["java"]) { "Java" }
    else if is_one_of(ext, &["go"]) { "Go" }
    else if is_one_of(ext, &["rs"]) { "Rust" }
    else if is_one_of(ext, &["c", "h"]) { "C" }
    else if is_one_of(ext, &["cpp", "cc", "cxx", "hpp", "hxx"]) { "C++" }
    else if is_one_of(ext, &["cs"]) { "C#" }
    else if is_one_of(ext, &["rb", "rake"]) { "Ruby" }
    else if is_one_of(ext, &["php"]) { "PHP" }
    else if is_one_of(ext, &["swift"]) { "Swift" }
    else if is_one_of(ext, &["kt", "kts"]) { "Kotlin" }
    else if is_one_of(ext, &["html", "htm"]) { "HTML" }
    else if is_one_of(ext, &["css", "scss", "sass", "less"]) { "CSS" }
    else if is_one_of(ext, &["sql"]) { "SQL" }
    else if is_one_of(ext, &["sh", "bash", "zsh", "fish"]) { "Shell" }
    else if is_one_of(ext, &["vue"]) { "Vue" }
    else if is_one_of(ext, &["jsx"]) { "JSX" }
    else if is_one_of(ext, &["tsx"]) { "TSX" }
    else { "Other" }
}

/// Whether `" - "` starts at position `i` of `t`.
pub open spec fn dash_at(t: Seq<char>, i: int) -> bool {
    0 <= i && i + 3 <= t.len() && t[i] == ' ' && t[i + 1] == '-' && t[i + 2] == ' '
}

/// The last position before `k` where `" - "` starts, `-1` when there is none.
pub open spec fn last_dash_before(t: Seq<char>, k: int) -> int
    decreases k,
{
    if k <= 0 {
        -1
    } else if dash_at(t, k - 1) {
        k - 1
    } else {
        last_dash_before(t, k - 1)
    }
}

/// The file part of a window title such as `"main.rs - Visual Studio Code"`:
/// the text before its last `" - "`, or the whole title when it has none.
pub open spec fn title_file_part(t: Seq<char>) -> Seq<char> {
    let i = last_dash_before(t, t.len() as int);
    if i < 0 { t } else { t.take(i) }
}

/// The extension of a file name: the text after its last `.`, when
/// something stands before that dot.
pub open spec fn extension_of(name: Seq<char>) -> Option<Seq<char>> {
    match crate::state::before_last_dot(name) {
        Some(b) => if b.len() > 0 { Some(name.skip(b.len() + 1 as int)) } else { None },
        None => None,
    }
}

/// The lower-cased extension of the file a window title names.
pub open spec fn title_ext(title: Seq<char>) -> Option<Seq<char>> {
    match extension_of(crate::state::file_name_of(title_file_part(title))) {
        Some(e) => Some(crate::text::lowercase(e)),
        None => None,
    }
}

fn dash_at_exec(t: &str, i: usize) -> (r: bool)
    ensures
        r == dash_at(t@, i as int),
{
    let n = t.unicode_len();
    i <= n && n - i >= 3 && t.get_char(i) == ' ' && t.get_char(i + 1) == '-' && t.get_char(i + 2) == ' '
}

/// The lower-cased extension of the file named in a window title
/// (`"main.rs - Visual Studio Code"` → `rs`), if it has one.
pub fn ext_from_title(title: &str) -> (r: Option<String>)
    ensures
        r matches Some(e) ==> title_ext(title@) == Some(e@),
        r is None ==> title_ext(title@) is None,
{
    let n = title.unicode_len();
    let mut k: usize = n;
    while k > 0 && !dash_at_exec(title, k - 1)
        invariant
            n == title@.len(),
            k <= n,
            last_dash_before(title@, n as int) == last_dash_before(title@, k as int),
        decreases k,
    {
        k = k - 1;
    }
    let part: &str = if k > 0 {
        assert(title@.take(k - 1) =~= title@.subrange(0, k - 1));
        title.substring_char(0, k - 1)
    } else {
        title
    };
    assert(part@ == title_file_part(title@));
    let start = crate::state::file_name_start(part);
    let name = part.substring_char(start, part.unicode_len());
    let d = crate::state::last_dot_end(name);
    if d > 1 {
        let m = name.unicode_len();
        let ext = name.substring_char(d, m);
        assert(ext@ =~= name@.skip(d as int));
        Some(crate::text::to_lowercase(ext))
    } else {
        None
    }
}


/// Abstract state of the focus session in progress.
pub struct SessionView {
    pub language: Option<Seq<char>>,
    /// Number of one-second ticks since the session started.
    pub ticks: nat,
}

/// Abstract state of a [`LanguageFocusTracker`].
pub struct TrackerView {
    pub current: Option<SessionView>,
    /// Committed focus seconds per language.
    pub focus: Map<Seq<char>, nat>,
    /// Characters typed per language.
    pub chars: Map<Seq<char>, nat>,
}

/// The count recorded for `k`, zero when there is none.
pub open spec fn count_of(m: Map<Seq<char>, nat>, k: Seq<char>) -> nat {
    if m.contains_key(k) { m[k] } else { 0 }
}

/// `m` with one more for `k`.
pub open spec fn plus_one(m: Map<Seq<char>, nat>, k: Seq<char>) -> Map<Seq<char>, nat> {
    m.insert(k, count_of(m, k) + 1)
}

/// One elapsed second: the session (if any) ages by one tick, and once it
/// has lasted `STABLE_THRESHOLD` ticks its language earns one focus second.
pub open spec fn after_tick(v: TrackerView) -> TrackerView {
    match v.current {
        None => v,
        Some(s) => {
            let t = s.ticks + 1;
            let aged = SessionView { language: s.language, ticks: t };
            if t >= STABLE_THRESHOLD {
                match s.language {
                    Some(l) => TrackerView { current: Some(aged), focus: plus_one(v.focus, l), chars: v.chars },
                    None => TrackerView { current: Some(aged), focus: v.focus, chars: v.chars },
                }
            } else {
                TrackerView { current: Some(aged), focus: v.focus, chars: v.chars }
            }
        }
    }
}

/// A window switch: a new session starts at zero ticks; committed seconds stay.
pub open spec fn after_window_change(v: TrackerView, language: Option<Seq<char>>) -> TrackerView {
    TrackerView { current: Some(SessionView { language, ticks: 0 }), focus: v.focus, chars: v.chars }
}

/// Whether a typed character is attributed to `language` at all.
pub open spec fn counts_characters(language: Seq<char>) -> bool {
    language != Seq::<char>::empty() && language != "Other"@
}

/// A typed character attributed to `language`.
pub open spec fn after_character(v: TrackerView, language: Seq<char>) -> TrackerView {
    if counts_characters(language) {
        TrackerView { current: v.current, focus: v.focus, chars: plus_one(v.chars, language) }
    } else {
        v
    }
}

/// What is left after a drain: the session continues, the counts are empty.
pub open spec fn after_snapshot(v: TrackerView) -> TrackerView {
    TrackerView { current: v.current, focus: Map::empty(), chars: Map::empty() }
}

/// `n` successive ticks.
pub open spec fn after_ticks(v: TrackerView, n: nat) -> TrackerView
    decreases n,
{
    if n == 0 { v } else { after_tick(after_ticks(v, (n - 1) as nat)) }
}

/// Whether one more tick keeps every counter within `u64`.
pub open spec fn tick_fits(v: TrackerView) -> bool {
    match v.current {
        None => true,
        Some(s) => {
            &&& s.ticks + 1 <= u64::MAX
            &&& (s.ticks + 1 >= STABLE_THRESHOLD && s.language is Some) ==> count_of(
                v.focus,
                s.language->0,
            ) + 1 <= u64::MAX
        }
    }
}

/// Law: after a switch to `language`, `n` ticks commit `n - 4` seconds to it
/// (none before the fifth tick); nothing else changes and the session has
/// aged `n` ticks.
pub proof fn law_stability_gate(v: TrackerView, language: Seq<char>, n: nat)
    ensures
        after_ticks(after_window_change(v, Some(language)), n).focus == (if n >= STABLE_THRESHOLD {
            v.focus.insert(language, count_of(v.focus, language) + (n - 4) as nat)
        } else {
            v.focus
        }),
        after_ticks(after_window_change(v, Some(language)), n).chars == v.chars,
        after_ticks(after_window_change(v, Some(language)), n).current == Some(
            SessionView { language: Some(language), ticks: n },
        ),
    decreases n,
{
    if n > 0 {
        law_stability_gate(v, language, (n - 1) as nat);
        let prev = after_ticks(after_window_change(v, Some(language)), (n - 1) as nat);
        if n >= STABLE_THRESHOLD {
            if n == STABLE_THRESHOLD {
                assert(plus_one(prev.focus, language) =~= v.focus.insert(
                    language,
                    count_of(v.focus, language) + 1,
                ));
            } else {
                assert(plus_one(prev.focus, language) =~= v.focus.insert(
                    language,
                    count_of(v.focus, language) + (n - 4) as nat,
                ));
            }
        }
    }
}

/// Law: draining never loses a second — for every language, what `n` ticks
/// commit after a drain equals what they would have added without it, and
/// the session carries on unchanged.
pub proof fn law_drain_keeps_session(v: TrackerView, n: nat, language: Seq<char>)
    ensures
        after_ticks(after_snapshot(v), n).current == after_ticks(v, n).current,
        count_of(after_ticks(v, n).focus, language) == count_of(v.focus, language) + count_of(
            after_ticks(after_snapshot(v), n).focus,
            language,
        ),
        after_ticks(after_snapshot(v), n).chars == Map::<Seq<char>, nat>::empty(),
        after_ticks(v, n).chars == v.chars,
    decreases n,
{
    if n > 0 {
        law_drain_keeps_session(v, (n - 1) as nat, language);
    }
}

/// One call on a language tracker.
pub enum TrackerCall {
    /// `tick()`.
    Tick,
    /// `on_window_change(language)`.
    WindowChange(Option<Seq<char>>),
    /// `add_character(language)`.
    Character(Seq<char>),
}

/// The tracker after one call.
pub open spec fn after_call(v: TrackerView, call: TrackerCall) -> TrackerView {
    match call {
        TrackerCall::Tick => after_tick(v),
        TrackerCall::WindowChange(l) => after_window_change(v, l),
        TrackerCall::Character(l) => after_character(v, l),
    }
}

/// The tracker after `calls`, in order.
pub open spec fn after_calls(v: TrackerView, calls: Seq<TrackerCall>) -> TrackerView
    decreases calls.len(),
{
    if calls.len() == 0 {
        v
    } else {
        after_call(after_calls(v, calls.drop_last()), calls.last())
    }
}

/// Two count maps added key by key.
pub open spec fn added(a: Map<Seq<char>, nat>, b: Map<Seq<char>, nat>) -> Map<Seq<char>, nat> {
    Map::new(|k: Seq<char>| a.contains_key(k) || b.contains_key(k), |k: Seq<char>| count_of(a, k) + count_of(b, k))
}

/// Every recorded count is positive.
pub open spec fn all_positive(m: Map<Seq<char>, nat>) -> bool {
    forall|k: Seq<char>| #[trigger] m.contains_key(k) ==> m[k] > 0
}

proof fn lemma_plus_one_added(a: Map<Seq<char>, nat>, b: Map<Seq<char>, nat>, l: Seq<char>)
    ensures
        plus_one(added(a, b), l) == added(a, plus_one(b, l)),
{
    assert(plus_one(added(a, b), l) =~= added(a, plus_one(b, l)));
}

/// Law: a drain loses nothing and changes nothing that follows — after any
/// calls, the counts of a tracker that was drained before them, added key
/// by key to what the drain returned, are the counts of the same tracker
/// left undrained; the session in progress is the same either way. So two
/// successive snapshots add up to one snapshot over the joined calls.
pub proof fn law_snapshots_add_up(v: TrackerView, calls: Seq<TrackerCall>)
    ensures
        after_calls(v, calls).current == after_calls(after_snapshot(v), calls).current,
        after_calls(v, calls).focus == added(v.focus, after_calls(after_snapshot(v), calls).focus),
        after_calls(v, calls).chars == added(v.chars, after_calls(after_snapshot(v), calls).chars),
    decreases calls.len(),
{
    if calls.len() == 0 {
        assert(added(v.focus, Map::empty()) =~= v.focus);
        assert(added(v.chars, Map::empty()) =~= v.chars);
    } else {
        law_snapshots_add_up(v, calls.drop_last());
        let p = after_calls(v, calls.drop_last());
        let q = after_calls(after_snapshot(v), calls.drop_last());
        match calls.last() {
            TrackerCall::Tick => {
                match q.current {
                    Some(s) => {
                        match s.language {
                            Some(l) => {
                                lemma_plus_one_added(v.focus, q.focus, l);
                            },
                            None => {},
                        }
                    },
                    None => {},
                }
            },
            TrackerCall::WindowChange(_) => {},
            TrackerCall::Character(l) => {
                lemma_plus_one_added(v.chars, q.chars, l);
            },
        }
    }
}

/// Law: a tracker never records a zero count — starting from positive
/// counts (a fresh or drained tracker has none), every count stays positive.
pub proof fn law_counts_positive(v: TrackerView, calls: Seq<TrackerCall>)
    requires
        all_positive(v.focus),
        all_positive(v.chars),
    ensures
        all_positive(after_calls(v, calls).focus),
        all_positive(after_calls(v, calls).chars),
    decreases calls.len(),
{
    if calls.len() > 0 {
        law_counts_positive(v, calls.drop_last());
    }
}


/// `t` read as a map of natural numbers.
pub open spec fn counts_view(t: KeyedTable<u64>) -> Map<Seq<char>, nat> {
    t@.map_values(|v: u64| v as nat)
}

/// Snapshot returned by [`LanguageFocusTracker::snapshot_and_clear`].
pub struct LangSnapshot {
    /// Accumulated focus seconds per language (after the 5-second gate).
    pub focus_seconds: KeyedTable<u64>,
    /// Characters typed per language (no threshold gate).
    pub char_counts: KeyedTable<u64>,
}

impl LangSnapshot {
    /// Both tables are internally consistent.
    pub open spec fn wf(&self) -> bool {
        self.focus_seconds.wf() && self.char_counts.wf()
    }
}

struct FocusSession {
    language: Option<String>,
    /// Number of 1-second ticks since this session started.
    ticks: u64,
    stable: bool,
}

/// Tracks per-language focus time (with 5-second stability gate) and typed
/// character counts.
pub struct LanguageFocusTracker {
    current: Option<FocusSession>,
    /// Committed focus seconds (added incrementally by `tick`).
    focus_seconds: KeyedTable<u64>,
    /// Characters typed per language.
    char_counts: KeyedTable<u64>,
}

impl View for LanguageFocusTracker {
    type V = TrackerView;

    closed spec fn view(&self) -> TrackerView {
        TrackerView {
            current: match self.current {
                None => None,
                Some(s) => Some(SessionView {
                    language: match s.language {
                        None => None,
                        Some(l) => Some(l@),
                    },
                    ticks: s.ticks as nat,
                }),
            },
            focus: counts_view(self.focus_seconds),
            chars: counts_view(self.char_counts),
        }
    }
}

fn clone_language(l: &Option<String>) -> (r: Option<String>)
    ensures
        r == *l,
{
    match l {
        None => None,
        Some(s) => Some(s.clone()),
    }
}

fn add_one(t: &mut KeyedTable<u64>, k: &str)
    requires
        old(t).wf(),
        count_of(counts_view(*old(t)), k@) + 1 <= u64::MAX,
    ensures
        final(t).wf(),
        counts_view(*final(t)) == plus_one(counts_view(*old(t)), k@),
{
    let n = match t.get(k) {
        Some(n) => n,
        None => 0,
    };
    t.set(k, n + 1);
    assert(counts_view(*final(t)) =~= plus_one(counts_view(*old(t)), k@));
}

impl LanguageFocusTracker {
    /// Internal consistency: both tables are consistent and the session's
    /// stability flag records whether it has reached the threshold.
    pub closed spec fn wf(&self) -> bool {
        &&& self.focus_seconds.wf()
        &&& self.char_counts.wf()
        &&& match self.current {
            None => true,
            Some(s) => s.stable == (s.ticks >= STABLE_THRESHOLD),
        }
    }

    /// A tracker with no session and no counts.
    pub fn new() -> (t: Self)
        ensures
            t.wf(),
            t@ == (TrackerView { current: None, focus: Map::empty(), chars: Map::empty() }),
    {
        let t = LanguageFocusTracker {
            current: None,
            focus_seconds: KeyedTable::new(),
            char_counts: KeyedTable::new(),
        };
        assert(t@.focus =~= Map::<Seq<char>, nat>::empty());
        assert(t@.chars =~= Map::<Seq<char>, nat>::empty());
        t
    }

    /// Whether one more [`tick`](Self::tick) keeps every counter within `u64`.
    pub fn tick_fits(&self) -> (r: bool)
        ensures
            r == tick_fits(self@),
    {
        match &self.current {
            None => true,
            Some(s) => {
                if s.ticks == u64::MAX {
                    false
                } else if s.ticks + 1 >= STABLE_THRESHOLD {
                    match &s.language {
                        None => true,
                        Some(l) => match self.focus_seconds.get(l.as_str()) {
                            Some(n) => n < u64::MAX,
                            None => true,
                        },
                    }
                } else {
                    true
                }
            },
        }
    }

    /// Record one elapsed second.  Adds 1 second to the current language's
    /// focus counter once the session has been stable for ≥ 5 seconds.
    pub fn tick(&mut self)
        requires
            old(self).wf(),
            tick_fits(old(self)@),
        ensures
            final(self).wf(),
            final(self)@ == after_tick(old(self)@),
    {
        let session = self.current.take();
        match session {
            None => {},
            Some(s) => {
                let ticks = s.ticks + 1;
                let stable = ticks >= STABLE_THRESHOLD;
                if stable {
                    match &s.language {
                        None => {},
                        Some(l) => {
                            add_one(&mut self.focus_seconds, l.as_str());
                        },
                    }
                }
                self.current = Some(FocusSession { language: s.language, ticks, stable });
            },
        }
    }

    /// Notify the tracker that the foreground window changed.  Starts a new
    /// focus session for `new_language` (may be `None` for windows without a
    /// recognisable source file extension).
    ///
    /// Previous in-progress session data already accumulated in `focus_seconds`
    /// via `tick()` is retained; the new session starts at zero ticks.
    pub fn on_window_change(&mut self, new_language: Option<String>)
        requires
            old(self).wf(),
        ensures
            final(self).wf(),
            final(self)@ == after_window_change(
                old(self)@,
                match new_language {
                    None => None,
                    Some(l) => Some(l@),
                },
            ),
    {
        self.current = Some(FocusSession { language: new_language, ticks: 0, stable: false });
    }

    /// Whether one more character for `language` keeps its count within `u64`.
    pub fn character_fits(&self, language: &str) -> (r: bool)
        ensures
            r == (count_of(self@.chars, language@) + 1 <= u64::MAX),
    {
        match self.char_counts.get(language) {
            Some(n) => n < u64::MAX,
            None => true,
        }
    }

    /// Record a typed visible character attributed to `language`.
    /// No-op if `language` is empty or `"Other"`.
    pub fn add_character(&mut self, language: &str)
        requires
            old(self).wf(),
            counts_characters(language@) ==> count_of(old(self)@.chars, language@) + 1 <= u64::MAX,
        ensures
            final(self).wf(),
            final(self)@ == after_character(old(self)@, language@),
    {
        if language.is_empty() {
            assert(language@ =~= Seq::<char>::empty());
            return;
        }
        if crate::text::same_text(language, "Other") {
            return;
        }
        add_one(&mut self.char_counts, language);
    }

    /// Drain all accumulated focus seconds and character counts.
    /// The ongoing session continues accumulating via subsequent `tick()` calls.
    pub fn snapshot_and_clear(&mut self) -> (snap: LangSnapshot)
        requires
            old(self).wf(),
        ensures
            final(self).wf(),
            snap.wf(),
            final(self)@ == after_snapshot(old(self)@),
            counts_view(snap.focus_seconds) == old(self)@.focus,
            counts_view(snap.char_counts) == old(self)@.chars,
    {
        let mut focus_seconds = KeyedTable::new();
        let mut char_counts = KeyedTable::new();
        std::mem::swap(&mut focus_seconds, &mut self.focus_seconds);
        std::mem::swap(&mut char_counts, &mut self.char_counts);
        assert(self@.focus =~= Map::<Seq<char>, nat>::empty());
        assert(self@.chars =~= Map::<Seq<char>, nat>::empty());
        LangSnapshot { focus_seconds, char_counts }
    }
}


impl Default for LanguageFocusTracker {
    fn default() -> (t: Self)
        ensures
            t.wf(),
            t@ == (TrackerView { current: None, focus: Map::empty(), chars: Map::empty() }),
    {
        Self::new()
    }
}

} // verus!
