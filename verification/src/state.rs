//! Shared state: the foreground window record and the PID file contents.

use vstd::prelude::*;

verus! {

/// The directory (under `%LOCALAPPDATA%`) holding the monitor's files.
pub const DATA_DIR_NAME: &'static str = "kim";
/// The PID file's name inside the data directory.
pub const PID_FILE_NAME: &'static str = "kimd.pid";

/// Information about the currently active foreground window.
/// Updated by the window-tracking hook, read by the event-processing thread.
#[derive(Debug, Default, Clone)]
pub struct WindowInfo {
    /// Lower-cased executable name without path or .exe suffix (e.g. `code`).
    pub process_name: String,
    /// Full window title text.
    pub window_title: String,
    /// File extension extracted from the window title (lower-cased), if any.
    pub active_ext: Option<String>,
    /// Language name mapped from `active_ext`, if recognised.
    pub language: Option<String>,
}

/// Whether `c` is an ASCII decimal digit.
pub open spec fn is_digit(c: char) -> bool {
    '0' <= c <= '9'
}

/// The value of a digit character.
pub open spec fn digit_value(c: char) -> nat {
    (c as u32 - '0' as u32) as nat
}

/// The value of a sequence of decimal digits, most significant first.
pub open spec fn digits_value(d: Seq<char>) -> nat
    decreases d.len(),
{
    if d.len() == 0 {
        0
    } else {
        digits_value(d.drop_last()) * 10 + digit_value(d.last())
    }
}

/// `s` without a leading `+`.
pub open spec fn unsigned_part(s: Seq<char>) -> Seq<char> {
    if s.len() > 0 && s[0] == '+' { s.drop_first() } else { s }
}

/// Whether every character of `d` is a decimal digit.
pub open spec fn all_digits(d: Seq<char>) -> bool {
    forall|i: int| 0 <= i < d.len() ==> is_digit(#[trigger] d[i])
}

/// What `str::parse::<u32>` accepts: an optional `+`, then one or more
/// digits whose value fits in `u32`.
pub open spec fn parsed_u32(s: Seq<char>) -> Option<u32> {
    let d = unsigned_part(s);
    if d.len() == 0 || !all_digits(d) {
        None
    } else if digits_value(d) > u32::MAX {
        None
    } else {
        Some(digits_value(d) as u32)
    }
}

proof fn lemma_digits_value_grows(d: Seq<char>, i: int)
    requires
        0 <= i <= d.len(),
    ensures
        digits_value(d) >= digits_value(d.take(i)),
    decreases d.len() - i,
{
    if i < d.len() {
        lemma_digits_value_grows(d, i + 1);
        assert(d.take(i + 1).drop_last() =~= d.take(i));
    } else {
        assert(d.take(i) =~= d);
    }
}

/// Parse a decimal `u32` the way `str::parse::<u32>` does.
pub fn parse_u32(s: &str) -> (r: Option<u32>)
    ensures
        r == parsed_u32(s@),
{
    let n = s.unicode_len();
    let mut start: usize = 0;
    if n > 0 && s.get_char(0) == '+' {
        start = 1;
    }
    let ghost d = unsigned_part(s@);
    assert(d =~= s@.subrange(start as int, n as int));
    if start == n {
        return None;
    }
    let mut acc: u64 = 0;
    let mut i: usize = start;
    while i < n
        invariant
            n == s@.len(),
            start < n,
            start <= i <= n,
            d == s@.subrange(start as int, n as int),
            d == unsigned_part(s@),
            d.len() > 0,
            forall|j: int| 0 <= j < i - start ==> is_digit(#[trigger] d[j]),
            acc == digits_value(d.take(i - start)),
            acc <= u32::MAX,
        decreases n - i,
    {
        let c = s.get_char(i);
        assert(d[i - start] == c);
        if !('0' <= c && c <= '9') {
            assert(!is_digit(d[i - start]));
            return None;
        }
        assert(d.take(i - start + 1).drop_last() =~= d.take(i - start));
        acc = acc * 10 + ((c as u32 - '0' as u32) as u64);
        i = i + 1;
        if acc > 0xFFFF_FFFF {
            proof {
                lemma_digits_value_grows(d, (i - start) as int);
            }
            return None;
        }
    }
    assert(d.take(n - start) =~= d);
    Some(acc as u32)
}

/// What a PID file's contents parse to: the trimmed text as a `u32`.
pub open spec fn pid_in_file(contents: Seq<char>) -> Option<u32> {
    parsed_u32(crate::text::trimmed(contents))
}

/// Parse the contents of the PID file: surrounding white space is ignored,
/// anything but a `u32` is invalid (`None`).
pub fn parse_pid_contents(contents: &str) -> (r: Option<u32>)
    ensures
        r == pid_in_file(contents@),
{
    let t = crate::text::trim_text(contents);
    parse_u32(t.as_str())
}

/// Whether `c` separates path components.
pub open spec fn is_separator(c: char) -> bool {
    c == '\\' || c == '/'
}

/// The last component of a path: the text after its last separator.
pub open spec fn file_name_of(path: Seq<char>) -> Seq<char>
    decreases path.len(),
{
    if path.len() == 0 || is_separator(path.last()) {
        Seq::empty()
    } else {
        file_name_of(path.drop_last()).push(path.last())
    }
}

/// The text before the last `.` of `name`, if it holds one.
pub open spec fn before_last_dot(name: Seq<char>) -> Option<Seq<char>>
    decreases name.len(),
{
    if name.len() == 0 {
        None
    } else if name.last() == '.' {
        Some(name.drop_last())
    } else {
        before_last_dot(name.drop_last())
    }
}

/// A file name without its extension: cut before the last `.`, unless
/// nothing would be left before it.
pub open spec fn stem_of(name: Seq<char>) -> Seq<char> {
    match before_last_dot(name) {
        Some(b) => if b.len() > 0 { b } else { name },
        None => name,
    }
}

/// The executable's stem in an image path (`C:\\Apps\\Code.exe` → `Code`).
pub open spec fn image_stem(path: Seq<char>) -> Seq<char> {
    stem_of(file_name_of(path))
}

/// Where the last component of `path` starts.
pub(crate) fn file_name_start(path: &str) -> (start: usize)
    ensures
        start <= path@.len(),
        file_name_of(path@) == path@.subrange(start as int, path@.len() as int),
{
    let len = path.unicode_len();
    let mut start: usize = len;
    assert(path@.take(len as int) =~= path@);
    assert(file_name_of(path@) + path@.subrange(len as int, len as int) =~= file_name_of(path@));
    while start > 0 && path.get_char(start - 1) != '\\' && path.get_char(start - 1) != '/'
        invariant
            len == path@.len(),
            start <= len,
            file_name_of(path@) == file_name_of(path@.take(start as int)) + path@.subrange(start as int, len as int),
        decreases start,
    {
        let c = path.get_char(start - 1);
        proof {
            assert(path@.take(start as int).drop_last() =~= path@.take(start - 1));
            assert(path@.take(start as int).last() == c);
            assert(file_name_of(path@.take(start - 1)).push(c) + path@.subrange(start as int, len as int)
                =~= file_name_of(path@.take(start - 1)) + path@.subrange(start - 1, len as int));
        }
        start = start - 1;
    }
    proof {
        if start > 0 {
            assert(path@.take(start as int).last() == path@[start - 1]);
        }
        assert(file_name_of(path@.take(start as int)) =~= Seq::<char>::empty());
        assert(file_name_of(path@) =~= path@.subrange(start as int, len as int));
    }
    start
}

/// One past the position of the last `.` in `name`, or 0 when it has none.
pub(crate) fn last_dot_end(name: &str) -> (k: usize)
    ensures
        k <= name@.len(),
        before_last_dot(name@) == (if k == 0 { None } else { Some(name@.take(k - 1)) }),
        k > 0 ==> name@[k - 1] == '.',
{
    let n = name.unicode_len();
    let mut k: usize = n;
    assert(name@.take(n as int) =~= name@);
    while k > 0 && name.get_char(k - 1) != '.'
        invariant
            n == name@.len(),
            k <= n,
            before_last_dot(name@) == before_last_dot(name@.take(k as int)),
        decreases k,
    {
        proof {
            assert(name@.take(k as int).drop_last() =~= name@.take(k - 1));
            assert(name@.take(k as int).last() == name@[k - 1]);
        }
        k = k - 1;
    }
    proof {
        if k > 0 {
            assert(name@.take(k as int).last() == '.');
            assert(name@.take(k as int).drop_last() =~= name@.take(k - 1));
        } else {
            assert(name@.take(0) =~= Seq::<char>::empty());
        }
    }
    k
}

/// The process name recorded for an executable image path: its stem,
/// lower-cased (`C:\\Apps\\Code.exe` → `code`).
pub fn process_name_of_image(path: &str) -> (r: String)
    ensures
        r@ == crate::text::lowercase(image_stem(path@)),
{
    let start = file_name_start(path);
    let name = path.substring_char(start, path.unicode_len());
    let k = last_dot_end(name);
    let stem: &str = if k > 1 {
        assert(name@.take(k - 1) =~= name@.subrange(0, k - 1));
        name.substring_char(0, k - 1)
    } else {
        name
    };
    crate::text::to_lowercase(stem)
}

} // verus!
