//! `kim autostart` — the registry value that starts the daemon at login,
//! and the UTF-16 conversions used to store it.

use vstd::prelude::*;

use crate::cli::CommandOutput;

verus! {

/// The `HKCU` sub-key holding per-user autostart entries.
pub const RUN_SUBKEY: &'static str = "SOFTWARE\\Microsoft\\Windows\\CurrentVersion\\Run";
/// The name of this program's autostart value.
pub const VALUE_NAME: &'static str = "kim";

/// The UTF-16 code units of one character.
pub open spec fn utf16_of_char(c: char) -> Seq<u16> {
    let u = c as u32;
    if u < 0x10000 {
        seq![u as u16]
    } else {
        let v = (u - 0x10000) as nat;
        seq![(0xD800 + v / 0x400) as u16, (0xDC00 + v % 0x400) as u16]
    }
}

/// The UTF-16 encoding of a character sequence.
pub open spec fn utf16_encode(s: Seq<char>) -> Seq<u16>
    decreases s.len(),
{
    if s.len() == 0 {
        Seq::empty()
    } else {
        utf16_encode(s.drop_last()) + utf16_of_char(s.last())
    }
}

/// Encode `s` as UTF-16 followed by a terminating NUL, as Win32 wide
/// strings are passed.
pub fn s2w(s: &str) -> (r: Vec<u16>)
    ensures
        r@ == utf16_encode(s@).push(0u16),
{
    let n = s.unicode_len();
    let mut r: Vec<u16> = Vec::new();
    let mut i: usize = 0;
    while i < n
        invariant
            n == s@.len(),
            i <= n,
            r@ == utf16_encode(s@.take(i as int)),
        decreases n - i,
    {
        let c = s.get_char(i);
        let u = c as u32;
        proof {
            vstd::utf8::char_is_scalar(c);
        }
        assert(s@.take(i + 1).drop_last() =~= s@.take(i as int));
        assert(s@.take(i + 1).last() == c);
        if u < 0x10000 {
            r.push(u as u16);
        } else {
            let v = u - 0x10000;
            r.push((0xD800 + v / 0x400) as u16);
            r.push((0xDC00 + v % 0x400) as u16);
        }
        i = i + 1;
        assert(r@ =~= utf16_encode(s@.take(i as int)));
    }
    assert(s@.take(n as int) =~= s@);
    r.push(0u16);
    r
}

/// Whether `u` is a UTF-16 surrogate code unit.
pub open spec fn is_surrogate(u: u16) -> bool {
    0xD800 <= u <= 0xDFFF
}

/// Lossy UTF-16 decoding: valid surrogate pairs combine, every unpaired
/// surrogate becomes U+FFFD (what `String::from_utf16_lossy` does).
pub open spec fn utf16_decode_lossy(w: Seq<u16>) -> Seq<char>
    decreases w.len(),
{
    if w.len() == 0 {
        Seq::empty()
    } else {
        let u = w[0];
        if !is_surrogate(u) {
            seq![u as char] + utf16_decode_lossy(w.drop_first())
        } else if u <= 0xDBFF && w.len() >= 2 && 0xDC00 <= w[1] <= 0xDFFF {
            seq![(0x10000 + (u - 0xD800) * 0x400 + (w[1] - 0xDC00)) as char] + utf16_decode_lossy(
                w.subrange(2, w.len() as int),
            )
        } else {
            seq!['\u{FFFD}'] + utf16_decode_lossy(w.drop_first())
        }
    }
}

/// Calls `char::from_u32` on a Unicode scalar value, which always succeeds.
#[verifier::external_body]
fn scalar_to_char(v: u32) -> (c: char)
    requires
        v < 0xD800 || (0xE000 <= v <= 0x10FFFF),
    ensures
        c as u32 == v,
{
    char::from_u32(v).unwrap()
}

/// Decode UTF-16 code units, replacing unpaired surrogates with U+FFFD.
pub fn decode_utf16_lossy(w: &[u16]) -> (r: String)
    ensures
        r@ == utf16_decode_lossy(w@),
{
    let mut r = String::new();
    let mut i: usize = 0;
    assert(w@.subrange(0, w@.len() as int) =~= w@);
    assert(r@ + utf16_decode_lossy(w@) =~= utf16_decode_lossy(w@));
    while i < w.len()
        invariant
            i <= w@.len(),
            r@ + utf16_decode_lossy(w@.subrange(i as int, w@.len() as int)) == utf16_decode_lossy(w@),
        decreases w@.len() - i,
    {
        let ghost rest = w@.subrange(i as int, w@.len() as int);
        let u = w[i];
        assert(rest[0] == u);
        if u < 0xD800 || u > 0xDFFF {
            crate::text::push_char(&mut r, scalar_to_char(u as u32));
            assert(rest.drop_first() =~= w@.subrange(i + 1, w@.len() as int));
            i = i + 1;
        } else if u <= 0xDBFF && i + 1 < w.len() && 0xDC00 <= w[i + 1] && w[i + 1] <= 0xDFFF {
            let lo = w[i + 1];
            let v: u32 = 0x10000 + ((u - 0xD800) as u32) * 0x400 + ((lo - 0xDC00) as u32);
            crate::text::push_char(&mut r, scalar_to_char(v));
            assert(rest[1] == lo);
            assert(rest.subrange(2, rest.len() as int) =~= w@.subrange(i + 2, w@.len() as int));
            i = i + 2;
        } else {
            crate::text::push_char(&mut r, '\u{FFFD}');
            assert(rest.drop_first() =~= w@.subrange(i + 1, w@.len() as int));
            i = i + 1;
        }
        assert(r@ + utf16_decode_lossy(w@.subrange(i as int, w@.len() as int)) =~= utf16_decode_lossy(w@));
    }
    assert(w@.subrange(w@.len() as int, w@.len() as int) =~= Seq::<u16>::empty());
    assert(r@ + Seq::<char>::empty() =~= r@);
    r
}

/// The little-endian 16-bit words of `raw` (a trailing odd byte is dropped).
pub open spec fn le_words(raw: Seq<u8>) -> Seq<u16> {
    Seq::new(raw.len() / 2, |i: int| (raw[2 * i] + 256 * raw[2 * i + 1]) as u16)
}

/// The words before the first NUL (all of them when there is none).
pub open spec fn until_nul(w: Seq<u16>) -> Seq<u16>
    decreases w.len(),
{
    if w.len() == 0 {
        w
    } else if w[0] == 0 {
        Seq::empty()
    } else {
        seq![w[0]] + until_nul(w.drop_first())
    }
}

proof fn lemma_until_nul_prefix(w: Seq<u16>, k: int)
    requires
        0 <= k <= w.len(),
        forall|j: int| 0 <= j < k ==> w[j] != 0,
        k == w.len() || w[k] == 0,
    ensures
        until_nul(w) == w.take(k),
    decreases w.len(),
{
    if w.len() == 0 {
        assert(w.take(k) =~= w);
    } else if k == 0 {
        assert(w.take(k) =~= Seq::<u16>::empty());
    } else {
        lemma_until_nul_prefix(w.drop_first(), k - 1);
        assert(seq![w[0]] + w.drop_first().take(k - 1) =~= w.take(k));
    }
}

/// A REG_SZ value read back from the registry: the UTF-16LE words of `raw`
/// up to the first NUL, decoded lossily.
pub fn bytes_to_string(raw: &[u8]) -> (r: String)
    ensures
        r@ == utf16_decode_lossy(until_nul(le_words(raw@))),
{
    let len = raw.len();
    let n = len / 2;
    let mut words: Vec<u16> = Vec::new();
    let mut i: usize = 0;
    while i < n
        invariant
            len == raw@.len(),
            n == raw@.len() / 2,
            i <= n,
            words@ == le_words(raw@).take(i as int),
        decreases n - i,
    {
        let w: u16 = (raw[2 * i] as u16) + 256 * (raw[2 * i + 1] as u16);
        words.push(w);
        i = i + 1;
        assert(words@ =~= le_words(raw@).take(i as int));
    }
    assert(words@ =~= le_words(raw@));
    let mut end: usize = 0;
    while end < words.len() && words[end] != 0
        invariant
            end <= words@.len(),
            forall|j: int| 0 <= j < end ==> words@[j] != 0,
        decreases words@.len() - end,
    {
        end = end + 1;
    }
    proof {
        lemma_until_nul_prefix(words@, end as int);
    }
    let head = vstd::slice::slice_subrange(words.as_slice(), 0, end);
    decode_utf16_lossy(head)
}

/// The little-endian bytes of 16-bit words (low byte first).
pub open spec fn le_bytes(w: Seq<u16>) -> Seq<u8> {
    Seq::new(2 * w.len(), |i: int| if i % 2 == 0 { (w[i / 2] % 256) as u8 } else { (w[i / 2] / 256) as u8 })
}

/// The REG_SZ data for wide-string words: their little-endian bytes.
pub fn words_to_le_bytes(w: &[u16]) -> (r: Vec<u8>)
    requires
        2 * w@.len() <= usize::MAX,
    ensures
        r@ == le_bytes(w@),
{
    let mut r: Vec<u8> = Vec::new();
    let mut i: usize = 0;
    while i < w.len()
        invariant
            i <= w@.len(),
            r@ == le_bytes(w@).take(2 * i),
            2 * w@.len() <= usize::MAX,
        decreases w@.len() - i,
    {
        let x = w[i];
        r.push((x % 256) as u8);
        r.push((x / 256) as u8);
        i = i + 1;
        assert(r@ =~= le_bytes(w@).take(2 * i)) by {
            assert forall|j: int| 2 * (i - 1) <= j < 2 * i implies #[trigger] r@[j] == le_bytes(w@)[j] by {
                if j == 2 * (i - 1) {
                    assert(j % 2 == 0 && j / 2 == i - 1);
                } else {
                    assert(j % 2 == 1 && j / 2 == i - 1);
                }
            }
        }
    }
    assert(r@ =~= le_bytes(w@));
    r
}

proof fn lemma_le_round_trip(w: Seq<u16>)
    ensures
        le_words(le_bytes(w)) == w,
{
    let b = le_bytes(w);
    assert forall|i: int| 0 <= i < w.len() implies #[trigger] le_words(b)[i] == w[i] by {
        assert((2 * i) % 2 == 0 && (2 * i) / 2 == i);
        assert((2 * i + 1) % 2 == 1 && (2 * i + 1) / 2 == i);
        assert(b[2 * i] == (w[i] % 256) as u8);
        assert(b[2 * i + 1] == (w[i] / 256) as u8);
    }
    assert(le_words(b) =~= w);
}

proof fn lemma_encode_front(s: Seq<char>)
    requires
        s.len() > 0,
    ensures
        utf16_encode(s) == utf16_of_char(s[0]) + utf16_encode(s.drop_first()),
    decreases s.len(),
{
    if s.len() == 1 {
        assert(s.drop_last() =~= Seq::<char>::empty());
        assert(s.drop_first() =~= Seq::<char>::empty());
        assert(utf16_encode(s.drop_last()) =~= Seq::<u16>::empty());
        assert(utf16_encode(s.drop_first()) =~= Seq::<u16>::empty());
        assert(utf16_encode(s) =~= utf16_of_char(s[0]));
    } else {
        lemma_encode_front(s.drop_last());
        assert(s.drop_last().drop_first() =~= s.drop_first().drop_last());
        assert(utf16_encode(s) =~= utf16_of_char(s[0]) + utf16_encode(s.drop_first()));
    }
}

proof fn lemma_decode_char(c: char, rest: Seq<u16>)
    ensures
        utf16_decode_lossy(utf16_of_char(c) + rest) == seq![c] + utf16_decode_lossy(rest),
{
    vstd::utf8::char_is_scalar(c);
    let u = c as u32;
    let w = utf16_of_char(c) + rest;
    if u < 0x10000 {
        assert(w.drop_first() =~= rest);
        assert((u as u16) as char == c);
    } else {
        let v = (u - 0x10000) as nat;
        assert(v == (v / 0x400) * 0x400 + v % 0x400);
        assert(w.subrange(2, w.len() as int) =~= rest);
        assert((0x10000 + ((0xD800 + v / 0x400) as u16 - 0xD800) * 0x400 + ((0xDC00 + v % 0x400) as u16
            - 0xDC00)) as char == c);
    }
}

proof fn lemma_decode_encode(s: Seq<char>)
    ensures
        utf16_decode_lossy(utf16_encode(s)) == s,
    decreases s.len(),
{
    if s.len() == 0 {
    } else {
        lemma_encode_front(s);
        lemma_decode_char(s[0], utf16_encode(s.drop_first()));
        lemma_decode_encode(s.drop_first());
        assert(seq![s[0]] + s.drop_first() =~= s);
    }
}

proof fn lemma_encode_has_no_nul(s: Seq<char>)
    requires
        forall|i: int| 0 <= i < s.len() ==> s[i] as u32 != 0,
    ensures
        forall|i: int| 0 <= i < utf16_encode(s).len() ==> utf16_encode(s)[i] != 0,
    decreases s.len(),
{
    if s.len() > 0 {
        lemma_encode_has_no_nul(s.drop_last());
        let c = s.last();
        assert(c as u32 != 0);
        vstd::utf8::char_is_scalar(c);
        let a = utf16_encode(s.drop_last());
        let b = utf16_of_char(c);
        assert(forall|j: int| 0 <= j < b.len() ==> b[j] != 0);
        assert(utf16_encode(s) == a + b);
        assert forall|i: int| 0 <= i < utf16_encode(s).len() implies utf16_encode(s)[i] != 0 by {
            if i < a.len() {
                assert(utf16_encode(s)[i] == a[i]);
            } else {
                assert(utf16_encode(s)[i] == b[i - a.len()]);
            }
        }
    }
}

/// Law: a string without NUL characters survives being stored as a wide,
/// NUL-terminated REG_SZ value and read back — the bytes written from
/// `s2w` decode with `bytes_to_string` to the same text.
pub proof fn law_registry_round_trip(s: Seq<char>)
    requires
        forall|i: int| 0 <= i < s.len() ==> s[i] as u32 != 0,
    ensures
        utf16_decode_lossy(until_nul(le_words(le_bytes(utf16_encode(s).push(0u16))))) == s,
{
    let w = utf16_encode(s).push(0u16);
    lemma_le_round_trip(w);
    lemma_encode_has_no_nul(s);
    lemma_until_nul_prefix(w, utf16_encode(s).len() as int);
    assert(w.take(utf16_encode(s).len() as int) =~= utf16_encode(s));
    lemma_decode_encode(s);
}

/// The registry value that starts the daemon: its quoted path and
/// `--autostart`.
pub fn autostart_value(kimd_path: &str) -> (r: String)
    ensures
        r@ == "\""@ + kimd_path@ + "\" --autostart"@,
{
    let mut r = String::new();
    r.append("\"");
    r.append(kimd_path);
    r.append("\" --autostart");
    r
}

/// What `kim autostart enable` prints given the registry write result.
pub fn enable_report(result: &Result<(), String>) -> (out: CommandOutput)
    ensures
        result is Ok ==> out.code == 0 && out.stderr@ == Seq::<char>::empty() && out.stdout@
            == "Autostart enabled. kim will start automatically on next login.\n"@,
        result matches Err(e) ==> out.code == 1 && out.stdout@ == Seq::<char>::empty() && out.stderr@
            == "Failed to enable autostart: "@ + e@ + "\n"@,
{
    match result {
        Ok(()) => {
            let mut t = String::new();
            t.append("Autostart enabled. kim will start automatically on next login.\n");
            crate::cli::stdout_output(t, 0)
        },
        Err(e) => {
            let mut m = String::new();
            m.append("Failed to enable autostart: ");
            m.append(e.as_str());
            m.append("\n");
            CommandOutput { stdout: String::new(), stderr: m, code: 1 }
        },
    }
}

/// What `kim autostart disable` prints given the registry delete result.
pub fn disable_report(result: &Result<(), String>) -> (out: CommandOutput)
    ensures
        result is Ok ==> out.code == 0 && out.stderr@ == Seq::<char>::empty() && out.stdout@
            == "Autostart disabled.\n"@,
        result matches Err(e) ==> out.code == 1 && out.stdout@ == Seq::<char>::empty() && out.stderr@
            == "Failed to disable autostart: "@ + e@ + "\n"@,
{
    match result {
        Ok(()) => {
            let mut t = String::new();
            t.append("Autostart disabled.\n");
            crate::cli::stdout_output(t, 0)
        },
        Err(e) => {
            let mut m = String::new();
            m.append("Failed to disable autostart: ");
            m.append(e.as_str());
            m.append("\n");
            CommandOutput { stdout: String::new(), stderr: m, code: 1 }
        },
    }
}

/// What `kim autostart status` prints given the registry read result.
pub fn status_report(result: &Result<Option<String>, String>) -> (out: CommandOutput)
    ensures
        result matches Ok(Some(path)) ==> out.code == 0 && out.stderr@ == Seq::<char>::empty()
            && out.stdout@ == "Autostart: enabled\nPath: "@ + path@ + "\n"@,
        result matches Ok(None) ==> out.code == 1 && out.stderr@ == Seq::<char>::empty() && out.stdout@
            == "Autostart: disabled\n"@,
        result matches Err(e) ==> out.code == 1 && out.stdout@ == Seq::<char>::empty() && out.stderr@
            == "Failed to query autostart: "@ + e@ + "\n"@,
{
    match result {
        Ok(Some(path)) => {
            let mut t = String::new();
            t.append("Autostart: enabled\nPath: ");
            t.append(path.as_str());
            t.append("\n");
            crate::cli::stdout_output(t, 0)
        },
        Ok(None) => {
            let mut t = String::new();
            t.append("Autostart: disabled\n");
            crate::cli::stdout_output(t, 1)
        },
        Err(e) => {
            let mut m = String::new();
            m.append("Failed to query autostart: ");
            m.append(e.as_str());
            m.append("\n");
            CommandOutput { stdout: String::new(), stderr: m, code: 1 }
        },
    }
}

} // verus!
