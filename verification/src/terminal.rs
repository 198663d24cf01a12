//! The terminal's byte-level logic: what the plain-text fallback shows of
//! the remote output, which bytes a key press sends, what pasting sends, and
//! when the PTY is resized.
use vstd::prelude::*;
use vstd::string::StringExecFns;
use vstd::utf8::{
    char_is_scalar, encode_scalar, encode_utf8, encode_utf8_decode_utf8,
    encode_utf8_valid_utf8,
};

use crate::text::{lossy_text, str_eq, string_from_utf8_lossy};

verus! {

/// Where a CSI sequence whose parameters start at `k` ends: just after the
/// first final byte (0x40..=0x7E), or at the end of the data.
pub open spec fn csi_end(data: Seq<u8>, k: int) -> int
    decreases data.len() - k,
{
    if k >= data.len() {
        data.len() as int
    } else if 0x40 <= data[k] <= 0x7e {
        k + 1
    } else {
        csi_end(data, k + 1)
    }
}

/// Where an OSC string whose body starts at `k` ends: just after a BEL, or
/// after an ESC '\' terminator, or at the end of the data.
pub open spec fn osc_end(data: Seq<u8>, k: int) -> int
    decreases data.len() - k,
{
    if k >= data.len() {
        data.len() as int
    } else if data[k] == 0x07 {
        k + 1
    } else if data[k] == 0x1b && k + 1 < data.len() && data[k + 1] == 0x5c {
        k + 2
    } else {
        osc_end(data, k + 1)
    }
}

pub proof fn lemma_csi_end_bounds(data: Seq<u8>, k: int)
    requires
        0 <= k <= data.len(),
    ensures
        k <= csi_end(data, k) <= data.len(),
    decreases data.len() - k,
{
    if k < data.len() && !(0x40 <= data[k] <= 0x7e) {
        lemma_csi_end_bounds(data, k + 1);
    }
}

pub proof fn lemma_osc_end_bounds(data: Seq<u8>, k: int)
    requires
        0 <= k <= data.len(),
    ensures
        k <= osc_end(data, k) <= data.len(),
    decreases data.len() - k,
{
    if k < data.len() && data[k] != 0x07 && !(data[k] == 0x1b && k + 1 < data.len() && data[k + 1]
        == 0x5c) {
        lemma_osc_end_bounds(data, k + 1);
    }
}

/// The readable text that remains of terminal output from position `i` on,
/// appended to `out`: escape sequences (CSI, OSC, other two-byte ones), CR
/// and BEL are dropped, a backspace removes the last kept byte, and of the
/// other control bytes only LF and TAB are kept.
pub open spec fn strip_from(data: Seq<u8>, i: int, out: Seq<u8>) -> Seq<u8>
    decreases data.len() - i,
{
    if i < 0 || i >= data.len() {
        out
    } else {
        let b = data[i];
        if b == 0x1b {
            if i + 1 >= data.len() {
                out
            } else if data[i + 1] == 0x5b {
                proof {
                    lemma_csi_end_bounds(data, i + 2);
                }
                strip_from(data, csi_end(data, i + 2), out)
            } else if data[i + 1] == 0x5d {
                proof {
                    lemma_osc_end_bounds(data, i + 2);
                }
                strip_from(data, osc_end(data, i + 2), out)
            } else {
                strip_from(data, i + 2, out)
            }
        } else if b == 0x0d || b == 0x07 {
            strip_from(data, i + 1, out)
        } else if b == 0x08 {
            strip_from(data, i + 1, if out.len() > 0 { out.drop_last() } else { out })
        } else if b == 0x0a || b == 0x09 || b >= 0x20 {
            strip_from(data, i + 1, out.push(b))
        } else {
            strip_from(data, i + 1, out)
        }
    }
}

/// The readable bytes of terminal output.
pub open spec fn stripped(data: Seq<u8>) -> Seq<u8> {
    strip_from(data, 0, Seq::empty())
}

fn csi_end_at(data: &[u8], k: usize) -> (e: usize)
    requires
        k <= data@.len(),
    ensures
        e == csi_end(data@, k as int),
{
    let mut j = k;
    while j < data.len() && !(0x40 <= data[j] && data[j] <= 0x7e)
        invariant
            k <= j <= data@.len(),
            csi_end(data@, j as int) == csi_end(data@, k as int),
        decreases data@.len() - j,
    {
        j = j + 1;
    }
    if j < data.len() {
        j + 1
    } else {
        j
    }
}

fn osc_end_at(data: &[u8], k: usize) -> (e: usize)
    requires
        k <= data@.len(),
    ensures
        e == osc_end(data@, k as int),
{
    let mut j = k;
    while j < data.len()
        invariant
            k <= j <= data@.len(),
            osc_end(data@, j as int) == osc_end(data@, k as int),
        decreases data@.len() - j,
    {
        if data[j] == 0x07 {
            return j + 1;
        }
        if data[j] == 0x1b && j + 1 < data.len() && data[j + 1] == 0x5c {
            return j + 2;
        }
        j = j + 1;
    }
    j
}

/// Removes the escape sequences and control bytes from terminal output.
pub fn strip_ansi_bytes(data: &[u8]) -> (out: Vec<u8>)
    ensures
        out@ == stripped(data@),
{
    let n = data.len();
    let mut out: Vec<u8> = Vec::new();
    let mut i: usize = 0;
    while i < n
        invariant
            n == data@.len(),
            i <= n,
            strip_from(data@, i as int, out@) == stripped(data@),
        decreases n - i,
    {
        let b = data[i];
        if b == 0x1b {
            if i + 1 >= n {
                i = n;
            } else if data[i + 1] == 0x5b {
                proof {
                    lemma_csi_end_bounds(data@, i + 2);
                }
                i = csi_end_at(data, i + 2);
            } else if data[i + 1] == 0x5d {
                proof {
                    lemma_osc_end_bounds(data@, i + 2);
                }
                i = osc_end_at(data, i + 2);
            } else {
                i = i + 2;
            }
        } else if b == 0x0d || b == 0x07 {
            i = i + 1;
        } else if b == 0x08 {
            out.pop();
            i = i + 1;
        } else if b == 0x0a || b == 0x09 || b >= 0x20 {
            out.push(b);
            i = i + 1;
        } else {
            i = i + 1;
        }
    }
    out
}

/// Bytes that stripping keeps as they are: LF, TAB and everything from
/// 0x20 on.
pub open spec fn plain_byte(b: u8) -> bool {
    b == 0x09 || b == 0x0a || b >= 0x20
}

/// All bytes are kept by stripping.
pub open spec fn plain_bytes(s: Seq<u8>) -> bool {
    forall|i: int| 0 <= i < s.len() ==> plain_byte(#[trigger] s[i])
}

/// What stripping appends to plain bytes is plain.
pub proof fn lemma_strip_gives_plain(data: Seq<u8>, i: int, out: Seq<u8>)
    requires
        plain_bytes(out),
    ensures
        plain_bytes(strip_from(data, i, out)),
    decreases data.len() - i,
{
    if i < 0 || i >= data.len() {
    } else {
        let b = data[i];
        if b == 0x1b {
            if i + 1 >= data.len() {
            } else if data[i + 1] == 0x5b {
                lemma_csi_end_bounds(data, i + 2);
                lemma_strip_gives_plain(data, csi_end(data, i + 2), out);
            } else if data[i + 1] == 0x5d {
                lemma_osc_end_bounds(data, i + 2);
                lemma_strip_gives_plain(data, osc_end(data, i + 2), out);
            } else {
                lemma_strip_gives_plain(data, i + 2, out);
            }
        } else if b == 0x0d || b == 0x07 {
            lemma_strip_gives_plain(data, i + 1, out);
        } else if b == 0x08 {
            let o = if out.len() > 0 { out.drop_last() } else { out };
            assert(plain_bytes(o));
            lemma_strip_gives_plain(data, i + 1, o);
        } else if b == 0x0a || b == 0x09 || b >= 0x20 {
            assert(plain_bytes(out.push(b)));
            lemma_strip_gives_plain(data, i + 1, out.push(b));
        } else {
            lemma_strip_gives_plain(data, i + 1, out);
        }
    }
}

/// Stripping keeps at most one byte for each byte it reads.
pub proof fn lemma_strip_len(data: Seq<u8>, i: int, out: Seq<u8>)
    requires
        0 <= i <= data.len(),
    ensures
        strip_from(data, i, out).len() <= out.len() + data.len() - i,
    decreases data.len() - i,
{
    if i < data.len() {
        let b = data[i];
        if b == 0x1b {
            if i + 1 >= data.len() {
            } else if data[i + 1] == 0x5b {
                lemma_csi_end_bounds(data, i + 2);
                lemma_strip_len(data, csi_end(data, i + 2), out);
            } else if data[i + 1] == 0x5d {
                lemma_osc_end_bounds(data, i + 2);
                lemma_strip_len(data, osc_end(data, i + 2), out);
            } else {
                lemma_strip_len(data, i + 2, out);
            }
        } else if b == 0x0d || b == 0x07 {
            lemma_strip_len(data, i + 1, out);
        } else if b == 0x08 {
            lemma_strip_len(data, i + 1, if out.len() > 0 { out.drop_last() } else { out });
        } else if b == 0x0a || b == 0x09 || b >= 0x20 {
            lemma_strip_len(data, i + 1, out.push(b));
        } else {
            lemma_strip_len(data, i + 1, out);
        }
    }
}

/// Stripping from `i` on, where every byte from `i` on is plain, appends
/// those bytes unchanged.
proof fn lemma_strip_plain_tail(d: Seq<u8>, i: int, out: Seq<u8>)
    requires
        0 <= i <= d.len(),
        forall|j: int| i <= j < d.len() ==> plain_byte(#[trigger] d[j]),
    ensures
        strip_from(d, i, out) == out + d.subrange(i, d.len() as int),
    decreases d.len() - i,
{
    if i < d.len() {
        let b = d[i];
        assert(plain_byte(d[i]));
        lemma_strip_plain_tail(d, i + 1, out.push(b));
        assert(out.push(b) + d.subrange(i + 1, d.len() as int) == out + d.subrange(i, d.len() as int));
    } else {
        assert(out + d.subrange(i, d.len() as int) == out);
    }
}

/// A parameter or intermediate byte of a CSI sequence (0x20..=0x3F).
pub open spec fn csi_inner_byte(b: u8) -> bool {
    0x20 <= b <= 0x3f
}

/// Where a CSI body of parameter bytes followed by a final byte ends: just
/// after the final byte.
proof fn lemma_csi_end_after_final(d: Seq<u8>, start: int, stop: int, k: int)
    requires
        0 <= start <= k <= stop < d.len(),
        forall|j: int| start <= j < stop ==> csi_inner_byte(#[trigger] d[j]),
        0x40 <= d[stop] <= 0x7e,
    ensures
        csi_end(d, k) == stop + 1,
    decreases stop - k,
{
    if k < stop {
        assert(csi_inner_byte(d[k]));
        lemma_csi_end_after_final(d, start, stop, k + 1);
    }
}

/// Law: a CSI sequence ends only at its first byte in 0x40..=0x7E. ESC '[',
/// any parameter and intermediate bytes (0x20..=0x3F, such as the '?' of a
/// private mode), a final byte, and then plain text strip to exactly that
/// text.
pub proof fn lemma_csi_sequence_dropped(params: Seq<u8>, final_byte: u8, text: Seq<u8>)
    requires
        forall|i: int| 0 <= i < params.len() ==> csi_inner_byte(#[trigger] params[i]),
        0x40 <= final_byte <= 0x7e,
        plain_bytes(text),
    ensures
        stripped(seq![0x1bu8, 0x5bu8] + params + seq![final_byte] + text) == text,
{
    let d = seq![0x1bu8, 0x5bu8] + params + seq![final_byte] + text;
    let stop: int = params.len() as int + 2;
    assert forall|j: int| 2 <= j < stop implies csi_inner_byte(#[trigger] d[j]) by {
        assert(d[j] == params[j - 2]);
    }
    assert(d[stop] == final_byte);
    lemma_csi_end_after_final(d, 2, stop, 2);
    assert forall|j: int| stop + 1 <= j < d.len() implies plain_byte(#[trigger] d[j]) by {
        assert(d[j] == text[j - stop - 1]);
    }
    lemma_strip_plain_tail(d, stop + 1, Seq::empty());
    assert(d.subrange(stop + 1, d.len() as int) == text);
    assert(Seq::<u8>::empty() + text == text);
}

/// Where an OSC string of printable bytes ends: just after its terminator,
/// BEL (one byte) or ESC '\' (two bytes), which starts at `stop`.
proof fn lemma_osc_end_after_terminator(d: Seq<u8>, start: int, stop: int, k: int)
    requires
        0 <= start <= k <= stop < d.len(),
        forall|j: int| start <= j < stop ==> 0x20 <= #[trigger] d[j] <= 0x7e,
        d[stop] == 0x07 || (d[stop] == 0x1b && stop + 1 < d.len() && d[stop + 1] == 0x5c),
    ensures
        osc_end(d, k) == if d[stop] == 0x07 { stop + 1 } else { stop + 2 },
    decreases stop - k,
{
    if k < stop {
        assert(0x20 <= d[k] <= 0x7e);
        lemma_osc_end_after_terminator(d, start, stop, k + 1);
    }
}

/// Law: an OSC string (a window title, say) is dropped whole. ESC ']',
/// printable bytes, a BEL or ESC '\' terminator, and then plain text strip
/// to exactly that text.
pub proof fn lemma_osc_string_dropped(body: Seq<u8>, st: bool, text: Seq<u8>)
    requires
        forall|i: int| 0 <= i < body.len() ==> 0x20 <= #[trigger] body[i] <= 0x7e,
        plain_bytes(text),
    ensures
        stripped(
            seq![0x1bu8, 0x5du8] + body + (if st { seq![0x1bu8, 0x5cu8] } else { seq![0x07u8] })
                + text,
        ) == text,
{
    let term: Seq<u8> = if st { seq![0x1bu8, 0x5cu8] } else { seq![0x07u8] };
    let d = seq![0x1bu8, 0x5du8] + body + term + text;
    let stop: int = body.len() as int + 2;
    let after: int = stop + term.len();
    assert forall|j: int| 2 <= j < stop implies 0x20 <= #[trigger] d[j] <= 0x7e by {
        assert(d[j] == body[j - 2]);
    }
    assert(d[stop] == term[0]);
    if st {
        assert(d[stop + 1] == term[1]);
    }
    lemma_osc_end_after_terminator(d, 2, stop, 2);
    assert forall|j: int| after <= j < d.len() implies plain_byte(#[trigger] d[j]) by {
        assert(d[j] == text[j - after]);
    }
    lemma_strip_plain_tail(d, after, Seq::empty());
    assert(d.subrange(after, d.len() as int) == text);
    assert(Seq::<u8>::empty() + text == text);
}

/// Stripping plain bytes keeps them all.
pub proof fn lemma_strip_plain_keeps(s: Seq<u8>, i: int, out: Seq<u8>)
    requires
        plain_bytes(s),
        0 <= i <= s.len(),
    ensures
        strip_from(s, i, out) == out + s.subrange(i, s.len() as int),
    decreases s.len() - i,
{
    if i < s.len() {
        let b = s[i];
        assert(plain_byte(b));
        lemma_strip_plain_keeps(s, i + 1, out.push(b));
        assert(out.push(b) + s.subrange(i + 1, s.len() as int) == out + s.subrange(i, s.len() as int));
    } else {
        assert(out + s.subrange(i, s.len() as int) == out);
    }
}

proof fn lemma_high_bit_or(a: u8, y: u8)
    requires
        a >= 0x80,
    ensures
        (a | y) >= 0x80,
{
    assert(a >= 0x80 ==> (a | y) >= 0x80) by (bit_vector);
}

proof fn lemma_low_byte(v: u32)
    requires
        v <= 0x7f,
    ensures
        (v & 0x7f) as u8 == v,
{
    assert(v <= 0x7f ==> ((v & 0x7f) as u8) == v) by (bit_vector);
}

/// A character that stripping keeps: LF, TAB or anything from U+0020 on.
pub open spec fn plain_char(c: char) -> bool {
    (c as u32) == 0x09 || (c as u32) == 0x0a || (c as u32) >= 0x20
}

/// The UTF-8 bytes of plain characters are plain.
pub proof fn lemma_encode_plain(chars: Seq<char>)
    requires
        forall|i: int| 0 <= i < chars.len() ==> plain_char(#[trigger] chars[i]),
    ensures
        plain_bytes(encode_utf8(chars)),
    decreases chars.len(),
{
    if chars.len() > 0 {
        let c = chars[0];
        assert(plain_char(chars[0]));
        let rest = chars.drop_first();
        assert forall|i: int| 0 <= i < rest.len() implies plain_char(#[trigger] rest[i]) by {
            assert(rest[i] == chars[i + 1]);
        }
        lemma_encode_plain(rest);
        let v = c as u32;
        char_is_scalar(c);
        let e = encode_scalar(v);
        if v <= 0x7f {
            lemma_low_byte(v);
            assert(plain_bytes(e));
        } else if v <= 0x7ff {
            lemma_high_bit_or(0xC0u8, ((v >> 6) & 0x1F) as u8);
            lemma_high_bit_or(0x80u8, (v & 0x3F) as u8);
            assert(plain_bytes(e));
        } else if v <= 0xffff {
            lemma_high_bit_or(0xE0u8, ((v >> 12) & 0x0F) as u8);
            lemma_high_bit_or(0x80u8, ((v >> 6) & 0x3F) as u8);
            lemma_high_bit_or(0x80u8, (v & 0x3F) as u8);
            assert(plain_bytes(e));
        } else {
            lemma_high_bit_or(0xF0u8, ((v >> 18) & 0x7) as u8);
            lemma_high_bit_or(0x80u8, ((v >> 12) & 0x3F) as u8);
            lemma_high_bit_or(0x80u8, ((v >> 6) & 0x3F) as u8);
            lemma_high_bit_or(0x80u8, (v & 0x3F) as u8);
            assert(plain_bytes(e));
        }
        let all = encode_utf8(chars);
        assert(all == e + encode_utf8(rest));
        assert forall|i: int| 0 <= i < all.len() implies plain_byte(#[trigger] all[i]) by {
            if i < e.len() {
                assert(all[i] == e[i]);
            } else {
                assert(all[i] == encode_utf8(rest)[i - e.len()]);
            }
        }
    }
}

/// The readable text of terminal output, as the plain-text fallback shows
/// it: every character left is LF, TAB or at least U+0020, there are no more
/// characters than input bytes, and stripping that text again leaves it
/// unchanged.
pub fn strip_ansi_escapes(data: &[u8]) -> (text: String)
    ensures
        text@ == lossy_text(stripped(data@)),
        forall|i: int| 0 <= i < text@.len() ==> plain_char(#[trigger] text@[i]),
        text@.len() <= data@.len(),
        lossy_text(stripped(encode_utf8(text@))) == text@,
{
    let bytes = strip_ansi_bytes(data);
    let text = string_from_utf8_lossy(bytes.as_slice());
    proof {
        let b = bytes@;
        let t = text@;
        lemma_strip_gives_plain(data@, 0, Seq::empty());
        lemma_strip_len(data@, 0, Seq::empty());
        assert(plain_bytes(b));
        assert forall|i: int| 0 <= i < t.len() implies plain_char(#[trigger] t[i]) by {
            let x = t[i] as u32;
            if x < 0x80 {
                assert(b.contains(x as u8));
                let j = choose|j: int| 0 <= j < b.len() && b[j] == x as u8;
                assert(plain_byte(b[j]));
                assert(x < 0x80 ==> (x as u8) as u32 == x) by (bit_vector);
            }
        }
        lemma_encode_plain(t);
        let e = encode_utf8(t);
        assert(plain_bytes(e));
        lemma_strip_plain_keeps(e, 0, Seq::empty());
        assert(Seq::<u8>::empty() + e.subrange(0, e.len() as int) == e);
        encode_utf8_valid_utf8(t);
        encode_utf8_decode_utf8(t);
    }
    text
}

/// Terminal shortcuts that act locally instead of sending bytes.
#[derive(Debug, Clone, Copy, PartialEq, Eq, Structural)]
pub enum Hotkey {
    /// Ctrl+Shift+C (key name "C" or "c"): copy the terminal text.
    Copy,
    /// Ctrl+Shift+V (key name "V" or "v"): paste the clipboard into the session.
    Paste,
    /// Ctrl+"+" or Ctrl+"=": larger font.
    ZoomIn,
    /// Ctrl+"-": smaller font.
    ZoomOut,
}

/// What a key press does in the terminal.
#[derive(Debug)]
pub enum KeyAction {
    Hotkey(Hotkey),
    /// Send these bytes to the remote side.
    Send(Vec<u8>),
    /// Leave the key to the widget.
    Ignore,
}

/// The shortcut that a key press is, if any.
pub open spec fn hotkey_of(name: Option<Seq<char>>, ctrl: bool, shift: bool) -> Option<Hotkey> {
    match name {
        None => None,
        Some(n) => {
            if ctrl && shift && (n == "c"@ || n == "C"@) {
                Some(Hotkey::Copy)
            } else if ctrl && shift && (n == "v"@ || n == "V"@) {
                Some(Hotkey::Paste)
            } else if ctrl && !shift && (n == "plus"@ || n == "equal"@) {
                Some(Hotkey::ZoomIn)
            } else if ctrl && !shift && n == "minus"@ {
                Some(Hotkey::ZoomOut)
            } else {
                None
            }
        },
    }
}

/// The bytes that a named special key sends, if it is one.
pub open spec fn special_key_bytes(n: Seq<char>) -> Option<Seq<u8>> {
    if n == "Return"@ || n == "KP_Enter"@ {
        Some(seq![0x0du8])
    } else if n == "BackSpace"@ {
        Some(seq![0x7fu8])
    } else if n == "Tab"@ || n == "ISO_Left_Tab"@ {
        Some(seq![0x09u8])
    } else if n == "Escape"@ {
        Some(seq![0x1bu8])
    } else if n == "Up"@ {
        Some(seq![0x1bu8, 0x5b, 0x41])
    } else if n == "Down"@ {
        Some(seq![0x1bu8, 0x5b, 0x42])
    } else if n == "Right"@ {
        Some(seq![0x1bu8, 0x5b, 0x43])
    } else if n == "Left"@ {
        Some(seq![0x1bu8, 0x5b, 0x44])
    } else if n == "Home"@ {
        Some(seq![0x1bu8, 0x5b, 0x48])
    } else if n == "End"@ {
        Some(seq![0x1bu8, 0x5b, 0x46])
    } else if n == "Delete"@ {
        Some(seq![0x1bu8, 0x5b, 0x33, 0x7e])
    } else {
        None
    }
}

/// The control byte of Ctrl with a Latin letter: 1 for A, ..., 26 for Z.
pub open spec fn control_byte(c: char) -> Option<u8> {
    if 'a' <= c <= 'z' {
        Some((c as u32 - 96) as u8)
    } else if 'A' <= c <= 'Z' {
        Some((c as u32 - 64) as u8)
    } else {
        None
    }
}

/// The bytes that a key press sends when it is no shortcut: a special key's
/// sequence; with Ctrl, the control byte of a letter; else the UTF-8 bytes
/// of the key's character. Empty when the key sends nothing.
pub open spec fn key_bytes(name: Option<Seq<char>>, ctrl: bool, text: Option<char>) -> Seq<u8> {
    let special = match name {
        Some(n) => special_key_bytes(n),
        None => None,
    };
    match special {
        Some(b) => b,
        None => {
            if ctrl {
                match text {
                    Some(c) => match control_byte(c) {
                        Some(b) => seq![b],
                        None => Seq::empty(),
                    },
                    None => Seq::empty(),
                }
            } else {
                match text {
                    Some(c) => encode_utf8(seq![c]),
                    None => Seq::empty(),
                }
            }
        },
    }
}

/// Law: Ctrl with a Latin letter gives the letter's code with all but its
/// low five bits cleared, the same byte for the small and the capital
/// letter: Ctrl+C is 0x03 (interrupt), Ctrl+D 0x04, Ctrl+Z 0x1A.
pub proof fn lemma_control_letters(c: char)
    requires
        'a' <= c <= 'z' || 'A' <= c <= 'Z',
    ensures
        control_byte(c) matches Some(b) && b == ((c as u32) & 0x1f) as u8 && 1 <= b <= 26,
{
    let v = c as u32;
    if 'a' <= c <= 'z' {
        assert(97 <= v <= 122 ==> (v - 96) as u8 == (v & 0x1f) as u8) by (bit_vector);
    } else {
        assert(65 <= v <= 90 ==> (v - 64) as u8 == (v & 0x1f) as u8) by (bit_vector);
    }
}

/// A key of this name is no shortcut and sends exactly these bytes.
pub open spec fn named_key_sends(n: Seq<char>, ctrl: bool, shift: bool, text: Option<char>, b: Seq<u8>) -> bool {
    hotkey_of(Some(n), ctrl, shift) is None && key_bytes(Some(n), ctrl, text) == b
}

/// Law: each named special key sends its fixed sequence whatever the
/// modifiers and the character it types: Return and KP_Enter CR, BackSpace
/// DEL, Tab and ISO_Left_Tab TAB (0x09), Escape ESC, the arrows, Home and
/// End `ESC [ A`..`ESC [ F`, Delete `ESC [ 3 ~`.
pub proof fn lemma_named_keys_send(ctrl: bool, shift: bool, text: Option<char>)
    ensures
        named_key_sends("Return"@, ctrl, shift, text, seq![0x0du8]),
        named_key_sends("KP_Enter"@, ctrl, shift, text, seq![0x0du8]),
        named_key_sends("BackSpace"@, ctrl, shift, text, seq![0x7fu8]),
        named_key_sends("Tab"@, ctrl, shift, text, seq![0x09u8]),
        named_key_sends("ISO_Left_Tab"@, ctrl, shift, text, seq![0x09u8]),
        named_key_sends("Escape"@, ctrl, shift, text, seq![0x1bu8]),
        named_key_sends("Up"@, ctrl, shift, text, seq![0x1bu8, 0x5b, 0x41]),
        named_key_sends("Down"@, ctrl, shift, text, seq![0x1bu8, 0x5b, 0x42]),
        named_key_sends("Right"@, ctrl, shift, text, seq![0x1bu8, 0x5b, 0x43]),
        named_key_sends("Left"@, ctrl, shift, text, seq![0x1bu8, 0x5b, 0x44]),
        named_key_sends("Home"@, ctrl, shift, text, seq![0x1bu8, 0x5b, 0x48]),
        named_key_sends("End"@, ctrl, shift, text, seq![0x1bu8, 0x5b, 0x46]),
        named_key_sends("Delete"@, ctrl, shift, text, seq![0x1bu8, 0x5b, 0x33, 0x7e]),
{
    assert(named_key_sends("Return"@, ctrl, shift, text, seq![0x0du8])) by {
        reveal_strlit("v");
        reveal_strlit("equal");
        reveal_strlit("Return");
        reveal_strlit("c");
        reveal_strlit("plus");
        reveal_strlit("C");
        reveal_strlit("minus");
        reveal_strlit("V");
        assert("Return"@.len() != "c"@.len());
        assert("Return"@.len() != "C"@.len());
        assert("Return"@.len() != "v"@.len());
        assert("Return"@.len() != "V"@.len());
        assert("Return"@.len() != "plus"@.len());
        assert("Return"@.len() != "equal"@.len());
        assert("Return"@.len() != "minus"@.len());
    }
    assert(named_key_sends("KP_Enter"@, ctrl, shift, text, seq![0x0du8])) by {
        reveal_strlit("v");
        reveal_strlit("KP_Enter");
        reveal_strlit("equal");
        reveal_strlit("Return");
        reveal_strlit("c");
        reveal_strlit("plus");
        reveal_strlit("C");
        reveal_strlit("minus");
        reveal_strlit("V");
        assert("KP_Enter"@.len() != "c"@.len());
        assert("KP_Enter"@.len() != "C"@.len());
        assert("KP_Enter"@.len() != "v"@.len());
        assert("KP_Enter"@.len() != "V"@.len());
        assert("KP_Enter"@.len() != "plus"@.len());
        assert("KP_Enter"@.len() != "equal"@.len());
        assert("KP_Enter"@.len() != "minus"@.len());
        assert("KP_Enter"@.len() != "Return"@.len());
    }
    assert(named_key_sends("BackSpace"@, ctrl, shift, text, seq![0x7fu8])) by {
        reveal_strlit("v");
        reveal_strlit("equal");
        reveal_strlit("KP_Enter");
        reveal_strlit("BackSpace");
        reveal_strlit("Return");
        reveal_strlit("c");
        reveal_strlit("plus");
        reveal_strlit("C");
        reveal_strlit("minus");
        reveal_strlit("V");
        assert("BackSpace"@.len() != "c"@.len());
        assert("BackSpace"@.len() != "C"@.len());
        assert("BackSpace"@.len() != "v"@.len());
        assert("BackSpace"@.len() != "V"@.len());
        assert("BackSpace"@.len() != "plus"@.len());
        assert("BackSpace"@.len() != "equal"@.len());
        assert("BackSpace"@.len() != "minus"@.len());
        assert("BackSpace"@.len() != "Return"@.len());
        assert("BackSpace"@.len() != "KP_Enter"@.len());
    }
    assert(named_key_sends("Tab"@, ctrl, shift, text, seq![0x09u8])) by {
        reveal_strlit("v");
        reveal_strlit("equal");
        reveal_strlit("KP_Enter");
        reveal_strlit("BackSpace");
        reveal_strlit("Return");
        reveal_strlit("c");
        reveal_strlit("plus");
        reveal_strlit("C");
        reveal_strlit("minus");
        reveal_strlit("Tab");
        reveal_strlit("V");
        assert("Tab"@.len() != "c"@.len());
        assert("Tab"@.len() != "C"@.len());
        assert("Tab"@.len() != "v"@.len());
        assert("Tab"@.len() != "V"@.len());
        assert("Tab"@.len() != "plus"@.len());
        assert("Tab"@.len() != "equal"@.len());
        assert("Tab"@.len() != "minus"@.len());
        assert("Tab"@.len() != "Return"@.len());
        assert("Tab"@.len() != "KP_Enter"@.len());
        assert("Tab"@.len() != "BackSpace"@.len());
    }
    assert(named_key_sends("ISO_Left_Tab"@, ctrl, shift, text, seq![0x09u8])) by {
        reveal_strlit("minus");
        reveal_strlit("v");
        reveal_strlit("equal");
        reveal_strlit("KP_Enter");
        reveal_strlit("BackSpace");
        reveal_strlit("Return");
        reveal_strlit("c");
        reveal_strlit("ISO_Left_Tab");
        reveal_strlit("C");
        reveal_strlit("plus");
        reveal_strlit("Tab");
        reveal_strlit("V");
        assert("ISO_Left_Tab"@.len() != "c"@.len());
        assert("ISO_Left_Tab"@.len() != "C"@.len());
        assert("ISO_Left_Tab"@.len() != "v"@.len());
        assert("ISO_Left_Tab"@.len() != "V"@.len());
        assert("ISO_Left_Tab"@.len() != "plus"@.len());
        assert("ISO_Left_Tab"@.len() != "equal"@.len());
        assert("ISO_Left_Tab"@.len() != "minus"@.len());
        assert("ISO_Left_Tab"@.len() != "Return"@.len());
        assert("ISO_Left_Tab"@.len() != "KP_Enter"@.len());
        assert("ISO_Left_Tab"@.len() != "BackSpace"@.len());
        assert("ISO_Left_Tab"@.len() != "Tab"@.len());
    }
    assert(named_key_sends("Escape"@, ctrl, shift, text, seq![0x1bu8])) by {
        reveal_strlit("v");
        reveal_strlit("equal");
        reveal_strlit("KP_Enter");
        reveal_strlit("BackSpace");
        reveal_strlit("Return");
        reveal_strlit("c");
        reveal_strlit("Escape");
        reveal_strlit("plus");
        reveal_strlit("C");
        reveal_strlit("minus");
        reveal_strlit("ISO_Left_Tab");
        reveal_strlit("Tab");
        reveal_strlit("V");
        assert("Escape"@.len() != "c"@.len());
        assert("Escape"@.len() != "C"@.len());
        assert("Escape"@.len() != "v"@.len());
        assert("Escape"@.len() != "V"@.len());
        assert("Escape"@.len() != "plus"@.len());
        assert("Escape"@.len() != "equal"@.len());
        assert("Escape"@.len() != "minus"@.len());
        assert("Escape"@[0] != "Return"@[0]);
        assert("Escape"@.len() != "KP_Enter"@.len());
        assert("Escape"@.len() != "BackSpace"@.len());
        assert("Escape"@.len() != "Tab"@.len());
        assert("Escape"@.len() != "ISO_Left_Tab"@.len());
    }
    assert(named_key_sends("Up"@, ctrl, shift, text, seq![0x1bu8, 0x5b, 0x41])) by {
        reveal_strlit("Tab");
        reveal_strlit("v");
        reveal_strlit("equal");
        reveal_strlit("KP_Enter");
        reveal_strlit("BackSpace");
        reveal_strlit("Return");
        reveal_strlit("c");
        reveal_strlit("Escape");
        reveal_strlit("plus");
        reveal_strlit("C");
        reveal_strlit("minus");
        reveal_strlit("ISO_Left_Tab");
        reveal_strlit("Up");
        reveal_strlit("V");
        assert("Up"@.len() != "c"@.len());
        assert("Up"@.len() != "C"@.len());
        assert("Up"@.len() != "v"@.len());
        assert("Up"@.len() != "V"@.len());
        assert("Up"@.len() != "plus"@.len());
        assert("Up"@.len() != "equal"@.len());
        assert("Up"@.len() != "minus"@.len());
        assert("Up"@.len() != "Return"@.len());
        assert("Up"@.len() != "KP_Enter"@.len());
        assert("Up"@.len() != "BackSpace"@.len());
        assert("Up"@.len() != "Tab"@.len());
        assert("Up"@.len() != "ISO_Left_Tab"@.len());
        assert("Up"@.len() != "Escape"@.len());
    }
    assert(named_key_sends("Down"@, ctrl, shift, text, seq![0x1bu8, 0x5b, 0x42])) by {
        reveal_strlit("minus");
        reveal_strlit("v");
        reveal_strlit("equal");
        reveal_strlit("KP_Enter");
        reveal_strlit("BackSpace");
        reveal_strlit("Return");
        reveal_strlit("c");
        reveal_strlit("Escape");
        reveal_strlit("Down");
        reveal_strlit("C");
        reveal_strlit("plus");
        reveal_strlit("ISO_Left_Tab");
        reveal_strlit("Up");
        reveal_strlit("Tab");
        reveal_strlit("V");
        assert("Down"@.len() != "c"@.len());
        assert("Down"@.len() != "C"@.len());
        assert("Down"@.len() != "v"@.len());
        assert("Down"@.len() != "V"@.len());
        assert("Down"@[0] != "plus"@[0]);
        assert("Down"@.len() != "equal"@.len());
        assert("Down"@.len() != "minus"@.len());
        assert("Down"@.len() != "Return"@.len());
        assert("Down"@.len() != "KP_Enter"@.len());
        assert("Down"@.len() != "BackSpace"@.len());
        assert("Down"@.len() != "Tab"@.len());
        assert("Down"@.len() != "ISO_Left_Tab"@.len());
        assert("Down"@.len() != "Escape"@.len());
        assert("Down"@.len() != "Up"@.len());
    }
    assert(named_key_sends("Right"@, ctrl, shift, text, seq![0x1bu8, 0x5b, 0x43])) by {
        reveal_strlit("v");
        reveal_strlit("equal");
        reveal_strlit("KP_Enter");
        reveal_strlit("Right");
        reveal_strlit("Return");
        reveal_strlit("c");
        reveal_strlit("BackSpace");
        reveal_strlit("Escape");
        reveal_strlit("plus");
        reveal_strlit("C");
        reveal_strlit("minus");
        reveal_strlit("ISO_Left_Tab");
        reveal_strlit("Up");
        reveal_strlit("Down");
        reveal_strlit("Tab");
        reveal_strlit("V");
        assert("Right"@.len() != "c"@.len());
        assert("Right"@.len() != "C"@.len());
        assert("Right"@.len() != "v"@.len());
        assert("Right"@.len() != "V"@.len());
        assert("Right"@.len() != "plus"@.len());
        assert("Right"@[0] != "equal"@[0]);
        assert("Right"@[0] != "minus"@[0]);
        assert("Right"@.len() != "Return"@.len());
        assert("Right"@.len() != "KP_Enter"@.len());
        assert("Right"@.len() != "BackSpace"@.len());
        assert("Right"@.len() != "Tab"@.len());
        assert("Right"@.len() != "ISO_Left_Tab"@.len());
        assert("Right"@.len() != "Escape"@.len());
        assert("Right"@.len() != "Up"@.len());
        assert("Right"@.len() != "Down"@.len());
    }
    assert(named_key_sends("Left"@, ctrl, shift, text, seq![0x1bu8, 0x5b, 0x44])) by {
        reveal_strlit("v");
        reveal_strlit("equal");
        reveal_strlit("KP_Enter");
        reveal_strlit("Left");
        reveal_strlit("BackSpace");
        reveal_strlit("Return");
        reveal_strlit("c");
        reveal_strlit("Right");
        reveal_strlit("Escape");
        reveal_strlit("plus");
        reveal_strlit("C");
        reveal_strlit("minus");
        reveal_strlit("ISO_Left_Tab");
        reveal_strlit("Up");
        reveal_strlit("Down");
        reveal_strlit("Tab");
        reveal_strlit("V");
        assert("Left"@.len() != "c"@.len());
        assert("Left"@.len() != "C"@.len());
        assert("Left"@.len() != "v"@.len());
        assert("Left"@.len() != "V"@.len());
        assert("Left"@[0] != "plus"@[0]);
        assert("Left"@.len() != "equal"@.len());
        assert("Left"@.len() != "minus"@.len());
        assert("Left"@.len() != "Return"@.len());
        assert("Left"@.len() != "KP_Enter"@.len());
        assert("Left"@.len() != "BackSpace"@.len());
        assert("Left"@.len() != "Tab"@.len());
        assert("Left"@.len() != "ISO_Left_Tab"@.len());
        assert("Left"@.len() != "Escape"@.len());
        assert("Left"@.len() != "Up"@.len());
        assert("Left"@[0] != "Down"@[0]);
        assert("Left"@.len() != "Right"@.len());
    }
    assert(named_key_sends("Home"@, ctrl, shift, text, seq![0x1bu8, 0x5b, 0x48])) by {
        reveal_strlit("v");
        reveal_strlit("equal");
        reveal_strlit("KP_Enter");
        reveal_strlit("Left");
        reveal_strlit("BackSpace");
        reveal_strlit("Return");
        reveal_strlit("c");
        reveal_strlit("Right");
        reveal_strlit("Home");
        reveal_strlit("Escape");
        reveal_strlit("plus");
        reveal_strlit("C");
        reveal_strlit("minus");
        reveal_strlit("ISO_Left_Tab");
        reveal_strlit("Up");
        reveal_strlit("Down");
        reveal_strlit("Tab");
        reveal_strlit("V");
        assert("Home"@.len() != "c"@.len());
        assert("Home"@.len() != "C"@.len());
        assert("Home"@.len() != "v"@.len());
        assert("Home"@.len() != "V"@.len());
        assert("Home"@[0] != "plus"@[0]);
        assert("Home"@.len() != "equal"@.len());
        assert("Home"@.len() != "minus"@.len());
        assert("Home"@.len() != "Return"@.len());
        assert("Home"@.len() != "KP_Enter"@.len());
        assert("Home"@.len() != "BackSpace"@.len());
        assert("Home"@.len() != "Tab"@.len());
        assert("Home"@.len() != "ISO_Left_Tab"@.len());
        assert("Home"@.len() != "Escape"@.len());
        assert("Home"@.len() != "Up"@.len());
        assert("Home"@[0] != "Down"@[0]);
        assert("Home"@.len() != "Right"@.len());
        assert("Home"@[0] != "Left"@[0]);
    }
    assert(named_key_sends("End"@, ctrl, shift, text, seq![0x1bu8, 0x5b, 0x46])) by {
        reveal_strlit("v");
        reveal_strlit("BackSpace");
        reveal_strlit("c");
        reveal_strlit("Escape");
        reveal_strlit("Tab");
        reveal_strlit("KP_Enter");
        reveal_strlit("End");
        reveal_strlit("plus");
        reveal_strlit("Up");
        reveal_strlit("equal");
        reveal_strlit("Left");
        reveal_strlit("Right");
        reveal_strlit("Home");
        reveal_strlit("Down");
        reveal_strlit("C");
        reveal_strlit("V");
        reveal_strlit("Return");
        reveal_strlit("ISO_Left_Tab");
        reveal_strlit("minus");
        assert("End"@.len() != "c"@.len());
        assert("End"@.len() != "C"@.len());
        assert("End"@.len() != "v"@.len());
        assert("End"@.len() != "V"@.len());
        assert("End"@.len() != "plus"@.len());
        assert("End"@.len() != "equal"@.len());
        assert("End"@.len() != "minus"@.len());
        assert("End"@.len() != "Return"@.len());
        assert("End"@.len() != "KP_Enter"@.len());
        assert("End"@.len() != "BackSpace"@.len());
        assert("End"@[0] != "Tab"@[0]);
        assert("End"@.len() != "ISO_Left_Tab"@.len());
        assert("End"@.len() != "Escape"@.len());
        assert("End"@.len() != "Up"@.len());
        assert("End"@.len() != "Down"@.len());
        assert("End"@.len() != "Right"@.len());
        assert("End"@.len() != "Left"@.len());
        assert("End"@.len() != "Home"@.len());
    }
    assert(named_key_sends("Delete"@, ctrl, shift, text, seq![0x1bu8, 0x5b, 0x33, 0x7e])) by {
        reveal_strlit("v");
        reveal_strlit("BackSpace");
        reveal_strlit("c");
        reveal_strlit("Escape");
        reveal_strlit("Tab");
        reveal_strlit("KP_Enter");
        reveal_strlit("End");
        reveal_strlit("plus");
        reveal_strlit("Up");
        reveal_strlit("equal");
        reveal_strlit("Left");
        reveal_strlit("Right");
        reveal_strlit("Delete");
        reveal_strlit("Home");
        reveal_strlit("Down");
        reveal_strlit("C");
        reveal_strlit("V");
        reveal_strlit("Return");
        reveal_strlit("ISO_Left_Tab");
        reveal_strlit("minus");
        assert("Delete"@.len() != "c"@.len());
        assert("Delete"@.len() != "C"@.len());
        assert("Delete"@.len() != "v"@.len());
        assert("Delete"@.len() != "V"@.len());
        assert("Delete"@.len() != "plus"@.len());
        assert("Delete"@.len() != "equal"@.len());
        assert("Delete"@.len() != "minus"@.len());
        assert("Delete"@[0] != "Return"@[0]);
        assert("Delete"@.len() != "KP_Enter"@.len());
        assert("Delete"@.len() != "BackSpace"@.len());
        assert("Delete"@.len() != "Tab"@.len());
        assert("Delete"@.len() != "ISO_Left_Tab"@.len());
        assert("Delete"@[0] != "Escape"@[0]);
        assert("Delete"@.len() != "Up"@.len());
        assert("Delete"@.len() != "Down"@.len());
        assert("Delete"@.len() != "Right"@.len());
        assert("Delete"@.len() != "Left"@.len());
        assert("Delete"@.len() != "Home"@.len());
        assert("Delete"@.len() != "End"@.len());
    }
}

/// The UTF-8 bytes of a character.
pub fn char_utf8(c: char) -> (b: Vec<u8>)
    ensures
        b@ == encode_utf8(seq![c]),
{
    let v = c as u32;
    proof {
        char_is_scalar(c);
        assert(encode_utf8(seq![c]) == encode_scalar(v) + encode_utf8(seq![c].drop_first()));
        assert(seq![c].drop_first() == Seq::<char>::empty());
        assert(encode_scalar(v) + Seq::<u8>::empty() == encode_scalar(v));
    }
    let mut b: Vec<u8> = Vec::new();
    if v <= 0x7f {
        b.push((v & 0x7f) as u8);
    } else if v <= 0x7ff {
        b.push(0xc0 | ((v >> 6) & 0x1f) as u8);
        b.push(0x80 | (v & 0x3f) as u8);
    } else if v <= 0xffff {
        b.push(0xe0 | ((v >> 12) & 0x0f) as u8);
        b.push(0x80 | ((v >> 6) & 0x3f) as u8);
        b.push(0x80 | (v & 0x3f) as u8);
    } else {
        b.push(0xf0 | ((v >> 18) & 0x7) as u8);
        b.push(0x80 | ((v >> 12) & 0x3f) as u8);
        b.push(0x80 | ((v >> 6) & 0x3f) as u8);
        b.push(0x80 | (v & 0x3f) as u8);
    }
    assert(b@ == encode_scalar(v));
    b
}

fn is_name(name: Option<&str>, expected: &str) -> (r: bool)
    ensures
        r == (name matches Some(n) && n@ == expected@),
{
    match name {
        Some(n) => str_eq(n, expected),
        None => false,
    }
}

fn special_bytes(name: Option<&str>) -> (r: Option<Vec<u8>>)
    ensures
        match name {
            Some(n) => match special_key_bytes(n@) {
                Some(b) => r matches Some(v) && v@ == b,
                None => r is None,
            },
            None => r is None,
        },
{
    if is_name(name, "Return") || is_name(name, "KP_Enter") {
        Some(vec![0x0du8])
    } else if is_name(name, "BackSpace") {
        Some(vec![0x7fu8])
    } else if is_name(name, "Tab") || is_name(name, "ISO_Left_Tab") {
        Some(vec![0x09u8])
    } else if is_name(name, "Escape") {
        Some(vec![0x1bu8])
    } else if is_name(name, "Up") {
        Some(vec![0x1bu8, 0x5b, 0x41])
    } else if is_name(name, "Down") {
        Some(vec![0x1bu8, 0x5b, 0x42])
    } else if is_name(name, "Right") {
        Some(vec![0x1bu8, 0x5b, 0x43])
    } else if is_name(name, "Left") {
        Some(vec![0x1bu8, 0x5b, 0x44])
    } else if is_name(name, "Home") {
        Some(vec![0x1bu8, 0x5b, 0x48])
    } else if is_name(name, "End") {
        Some(vec![0x1bu8, 0x5b, 0x46])
    } else if is_name(name, "Delete") {
        Some(vec![0x1bu8, 0x5b, 0x33, 0x7e])
    } else {
        None
    }
}

/// The characters of an optional key name.
pub open spec fn opt_name(name: Option<&str>) -> Option<Seq<char>> {
    match name {
        Some(n) => Some(n@),
        None => None,
    }
}

/// Decides what a key press does: a terminal shortcut, bytes to send, or
/// nothing. `name` is the key's name, `text` the character it types.
pub fn key_action(name: Option<&str>, ctrl: bool, shift: bool, text: Option<char>) -> (a: KeyAction)
    ensures
        match hotkey_of(opt_name(name), ctrl, shift) {
            Some(h) => a matches KeyAction::Hotkey(x) && x == h,
            None => {
                let b = key_bytes(opt_name(name), ctrl, text);
                if b.len() == 0 {
                    a is Ignore
                } else {
                    a matches KeyAction::Send(v) && v@ == b
                }
            },
        },
{
    if ctrl && shift {
        if is_name(name, "c") || is_name(name, "C") {
            return KeyAction::Hotkey(Hotkey::Copy);
        }
        if is_name(name, "v") || is_name(name, "V") {
            return KeyAction::Hotkey(Hotkey::Paste);
        }
    }
    if ctrl && !shift {
        if is_name(name, "plus") || is_name(name, "equal") {
            return KeyAction::Hotkey(Hotkey::ZoomIn);
        }
        if is_name(name, "minus") {
            return KeyAction::Hotkey(Hotkey::ZoomOut);
        }
    }
    let bytes: Vec<u8> = match special_bytes(name) {
        Some(b) => b,
        None => {
            if ctrl {
                match text {
                    Some(c) => {
                        if 'a' <= c && c <= 'z' {
                            vec![((c as u32) - 96) as u8]
                        } else if 'A' <= c && c <= 'Z' {
                            vec![((c as u32) - 64) as u8]
                        } else {
                            Vec::new()
                        }
                    },
                    None => Vec::new(),
                }
            } else {
                match text {
                    Some(c) => char_utf8(c),
                    None => Vec::new(),
                }
            }
        },
    };
    if bytes.len() == 0 {
        KeyAction::Ignore
    } else {
        KeyAction::Send(bytes)
    }
}

/// The bytes that pasting text sends: its UTF-8 bytes, each line feed
/// turned into a carriage return.
pub open spec fn paste_bytes_of(text: Seq<char>) -> Seq<u8> {
    encode_utf8(text).map_values(|b: u8| if b == 0x0a { 0x0du8 } else { b })
}

/// The bytes that pasting text into the session sends.
pub fn paste_bytes(text: &str) -> (b: Vec<u8>)
    ensures
        b@ == paste_bytes_of(text@),
{
    let src = text.as_bytes();
    let mut out: Vec<u8> = Vec::new();
    let mut i: usize = 0;
    while i < src.len()
        invariant
            src@ == encode_utf8(text@),
            i <= src@.len(),
            out@ == src@.subrange(0, i as int).map_values(
                |b: u8| if b == 0x0a { 0x0du8 } else { b },
            ),
        decreases src@.len() - i,
    {
        let c = src[i];
        if c == 0x0a {
            out.push(0x0d);
        } else {
            out.push(c);
        }
        proof {
            assert(src@.subrange(0, i + 1) == src@.subrange(0, i as int).push(c));
        }
        i = i + 1;
    }
    assert(src@.subrange(0, src@.len() as int) == src@);
    out
}

/// The PTY size (columns, rows) that a widget of `width` x `height` pixels
/// holds with cells of `cell_w` x `cell_h` pixels (each at least 1).
pub open spec fn pty_size(width: i32, height: i32, cell_w: i32, cell_h: i32) -> (u32, u32) {
    let w = if width < 1 { 1 } else { width as int };
    let h = if height < 1 { 1 } else { height as int };
    let cw = if cell_w < 1 { 1 } else { cell_w as int };
    let ch = if cell_h < 1 { 1 } else { cell_h as int };
    ((w / cw) as u32, (h / ch) as u32)
}

/// Decides whether the PTY is resized: when the size it should have differs
/// from the last one sent and holds more than one column and row. Returns the
/// size to send (and to remember).
pub fn pty_resize(width: i32, height: i32, cell_w: i32, cell_h: i32, last: (u32, u32)) -> (r: Option<
    (u32, u32),
>)
    ensures
        ({
            let s = pty_size(width, height, cell_w, cell_h);
            if s != last && s.0 > 1 && s.1 > 1 {
                r == Some(s)
            } else {
                r is None
            }
        }),
{
    let w: i32 = if width < 1 { 1 } else { width };
    let h: i32 = if height < 1 { 1 } else { height };
    let cw: i32 = if cell_w < 1 { 1 } else { cell_w };
    let ch: i32 = if cell_h < 1 { 1 } else { cell_h };
    let cols = (w / cw) as u32;
    let rows = (h / ch) as u32;
    if (cols != last.0 || rows != last.1) && cols > 1 && rows > 1 {
        Some((cols, rows))
    } else {
        None
    }
}

/// What a non-blocking read of the session channel gave.
#[derive(Debug)]
pub enum ChannelRead {
    /// The remote side closed the channel (a read of 0 bytes).
    Eof,
    /// Bytes arrived.
    Data(Vec<u8>),
    /// Nothing to read yet.
    WouldBlock,
    /// The read failed with this error.
    Failed(String),
}

/// What the session loop does after a read.
#[derive(Debug)]
pub enum ReadStep {
    /// Hand the bytes to the terminal and go on.
    Forward(Vec<u8>),
    /// Report the session closed (with the error, if any) and stop.
    Close(Option<String>),
    /// Go on without output.
    Wait,
}

/// Decides what the session loop does with the outcome of a read: output is
/// forwarded, an empty read closes the session without error, a failed read
/// closes it with the error, and no data means waiting.
pub fn session_read_step(read: ChannelRead) -> (step: ReadStep)
    ensures
        match read {
            ChannelRead::Eof => step matches ReadStep::Close(None),
            ChannelRead::Data(d) => step matches ReadStep::Forward(b) && b@ == d@,
            ChannelRead::WouldBlock => step is Wait,
            ChannelRead::Failed(e) => step matches ReadStep::Close(Some(m)) && m@ == e@,
        },
{
    match read {
        ChannelRead::Eof => ReadStep::Close(None),
        ChannelRead::Data(d) => ReadStep::Forward(d),
        ChannelRead::WouldBlock => ReadStep::Wait,
        ChannelRead::Failed(e) => ReadStep::Close(Some(e)),
    }
}

/// The title of an SSH terminal tab: "ssh user@host", with "?" for a
/// profile without a login.
pub open spec fn session_title_of(p: crate::models::Profile) -> Seq<char> {
    "ssh "@ + (match p.username {
        Some(u) => u@,
        None => "?"@,
    }) + "@"@ + p.host@
}

/// The title of the SSH terminal tab of a profile.
pub fn session_title(p: &crate::models::Profile) -> (t: String)
    ensures
        t@ == session_title_of(*p),
{
    let mut t = String::from_str("ssh ");
    match &p.username {
        Some(u) => t.append(u.as_str()),
        None => t.append("?"),
    }
    t.append("@");
    t.append(p.host.as_str());
    t
}

/// The status line shown when a session closes.
pub open spec fn closed_message_of(err: Option<Seq<char>>) -> Seq<char> {
    match err {
        Some(e) => "● Сессия закрыта: "@ + e,
        None => "● Сессия закрыта"@,
    }
}

/// The status line shown when a session closes, with the error if any.
pub fn closed_message(err: Option<String>) -> (m: String)
    ensures
        m@ == closed_message_of(crate::text::opt_chars(err)),
{
    match err {
        Some(e) => {
            let mut m = String::from_str("● Сессия закрыта: ");
            m.append(e.as_str());
            m
        },
        None => String::from_str("● Сессия закрыта"),
    }
}

} // verus!
