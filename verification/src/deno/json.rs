//! Decoder for the worker-to-host JSON lines: a structure-aware key scan,
//! string literals with their escapes, unsigned integers, and the three
//! message kinds (`done`, `err`, `diag`).

use vstd::prelude::*;
use vstd::string::StringSliceAdditionalSpecFns;
use crate::decimal::dec_digits;
use crate::deno::error::DenoRuntimeError;
use crate::deno::{MESSAGE_CAP, PATH_CAP, PLUGIN_ID_CAP, RULE_ID_CAP, SEVERITY_CAP};

verus! {

pub const QUOTE: u8 = 0x22;
pub const BACKSLASH: u8 = 0x5c;
pub const SLASH: u8 = 0x2f;
pub const COLON: u8 = 0x3a;
pub const LBRACE: u8 = 0x7b;
pub const RBRACE: u8 = 0x7d;
pub const LBRACKET: u8 = 0x5b;
pub const RBRACKET: u8 = 0x5d;
pub const SPACE: u8 = 0x20;
pub const TAB: u8 = 0x09;
pub const NEWLINE: u8 = 0x0a;
pub const CR: u8 = 0x0d;

// ---------------------------------------------------------------------
// Whitespace
// ---------------------------------------------------------------------

/// JSON whitespace: space, tab, newline, carriage return.
pub open spec fn is_ws(b: u8) -> bool {
    b == SPACE || b == TAB || b == NEWLINE || b == CR
}

/// First index at or after `idx` that is not whitespace (or `idx` itself
/// when it is past the end).
pub open spec fn spec_skip_ws(buf: Seq<u8>, idx: int) -> int
    decreases buf.len() - idx,
{
    if 0 <= idx < buf.len() && is_ws(buf[idx]) {
        spec_skip_ws(buf, idx + 1)
    } else {
        idx
    }
}

pub proof fn lemma_skip_ws_bounds(buf: Seq<u8>, idx: int)
    ensures
        idx <= spec_skip_ws(buf, idx),
        0 <= idx <= buf.len() ==> spec_skip_ws(buf, idx) <= buf.len(),
        0 <= idx ==> forall|k: int| idx <= k < spec_skip_ws(buf, idx) ==> is_ws(#[trigger] buf[k]),
    decreases buf.len() - idx,
{
    if 0 <= idx < buf.len() && is_ws(buf[idx]) {
        lemma_skip_ws_bounds(buf, idx + 1);
    }
}

pub fn is_ws_byte(b: u8) -> (r: bool)
    ensures
        r == is_ws(b),
{
    b == SPACE || b == TAB || b == NEWLINE || b == CR
}

pub fn skip_ws(buf: &[u8], idx: usize) -> (r: usize)
    ensures
        r as int == spec_skip_ws(buf@, idx as int),
{
    let mut i = idx;
    while i < buf.len() && is_ws_byte(buf[i])
        invariant
            idx <= i,
            spec_skip_ws(buf@, idx as int) == spec_skip_ws(buf@, i as int),
        decreases buf.len() - i,
    {
        i = i + 1;
    }
    i
}

/// End of the slice once trailing whitespace after `start` is dropped.
pub open spec fn spec_trim_end(buf: Seq<u8>, start: int, end: int) -> int
    decreases end,
{
    if end > start && end >= 1 && is_ws(buf[end - 1]) {
        spec_trim_end(buf, start, end - 1)
    } else {
        end
    }
}

pub proof fn lemma_trim_end_bounds(buf: Seq<u8>, start: int, end: int)
    requires
        start <= end,
    ensures
        start <= spec_trim_end(buf, start, end) <= end,
    decreases end,
{
    if end > start && end >= 1 && is_ws(buf[end - 1]) {
        lemma_trim_end_bounds(buf, start, end - 1);
    }
}

/// `buf` without leading and trailing JSON whitespace.
pub open spec fn spec_trim(buf: Seq<u8>) -> Seq<u8> {
    let s = spec_skip_ws(buf, 0);
    buf.subrange(s, spec_trim_end(buf, s, buf.len() as int))
}

pub fn trim_ws(buf: &[u8]) -> (r: &[u8])
    ensures
        r@ == spec_trim(buf@),
{
    let start = skip_ws(buf, 0);
    proof {
        lemma_skip_ws_bounds(buf@, 0);
    }
    let mut end = buf.len();
    while end > start && is_ws_byte(buf[end - 1])
        invariant
            start <= end <= buf.len(),
            start as int == spec_skip_ws(buf@, 0),
            spec_trim_end(buf@, start as int, buf@.len() as int) == spec_trim_end(
                buf@,
                start as int,
                end as int,
            ),
        decreases end,
    {
        end = end - 1;
    }
    vstd::slice::slice_subrange(buf, start, end)
}

// ---------------------------------------------------------------------
// Byte-wise comparison
// ---------------------------------------------------------------------

/// Whether `key` occurs in `buf` starting at `pos`.
pub open spec fn occurs_at(buf: Seq<u8>, pos: int, key: Seq<u8>) -> bool {
    0 <= pos && pos + key.len() <= buf.len() && buf.subrange(pos, pos + key.len()) == key
}

pub fn bytes_at(buf: &[u8], pos: usize, key: &[u8]) -> (r: bool)
    ensures
        r == occurs_at(buf@, pos as int, key@),
{
    if pos > buf.len() || buf.len() - pos < key.len() {
        return false;
    }
    let mut k: usize = 0;
    while k < key.len()
        invariant
            pos + key.len() <= buf.len(),
            k <= key.len(),
            forall|m: int| 0 <= m < k ==> buf@[pos + m] == key@[m],
        decreases key.len() - k,
    {
        if buf[pos + k] != key[k] {
            assert(buf@.subrange(pos as int, pos + key.len())[k as int] != key@[k as int]);
            return false;
        }
        k = k + 1;
    }
    assert(buf@.subrange(pos as int, pos + key.len()) =~= key@);
    true
}

// ---------------------------------------------------------------------
// Hex digits and UTF-8
// ---------------------------------------------------------------------

pub open spec fn hex_val(b: u8) -> Option<u16> {
    if 0x30 <= b <= 0x39 {
        Some((b - 0x30) as u16)
    } else if 0x61 <= b <= 0x66 {
        Some((b - 0x61 + 10) as u16)
    } else if 0x41 <= b <= 0x46 {
        Some((b - 0x41 + 10) as u16)
    } else {
        None
    }
}

/// Four hex digits read as a big-endian 16-bit value.
pub open spec fn spec_hex4(s: Seq<u8>) -> Option<u16> {
    if s.len() < 4 {
        None
    } else {
        match (hex_val(s[0]), hex_val(s[1]), hex_val(s[2]), hex_val(s[3])) {
            (Some(a), Some(b), Some(c), Some(d)) => Some((a * 4096 + b * 256 + c * 16 + d) as u16),
            _ => None,
        }
    }
}

pub fn hex_digit(b: u8) -> (r: Option<u16>)
    ensures
        r == hex_val(b),
        r matches Some(v) ==> v < 16,
{
    if 0x30 <= b && b <= 0x39 {
        Some((b - 0x30) as u16)
    } else if 0x61 <= b && b <= 0x66 {
        Some((b - 0x61 + 10) as u16)
    } else if 0x41 <= b && b <= 0x46 {
        Some((b - 0x41 + 10) as u16)
    } else {
        None
    }
}

pub fn decode_hex4(buf: &[u8]) -> (r: Option<u16>)
    ensures
        r == spec_hex4(buf@),
{
    if buf.len() < 4 {
        return None;
    }
    let a = match hex_digit(buf[0]) {
        Some(v) => v,
        None => return None,
    };
    let b = match hex_digit(buf[1]) {
        Some(v) => v,
        None => return None,
    };
    let c = match hex_digit(buf[2]) {
        Some(v) => v,
        None => return None,
    };
    let d = match hex_digit(buf[3]) {
        Some(v) => v,
        None => return None,
    };
    Some(a * 4096 + b * 256 + c * 16 + d)
}

/// Number of UTF-8 bytes for a code point; 0 past U+10FFFF.
pub open spec fn utf8_len(cp: u32) -> int {
    if cp <= 0x7F {
        1
    } else if cp <= 0x7FF {
        2
    } else if cp <= 0xFFFF {
        3
    } else if cp <= 0x10FFFF {
        4
    } else {
        0
    }
}

/// The standard UTF-8 byte sequence of a code point (surrogates are
/// encoded like any other three-byte value).
pub open spec fn utf8_bytes(cp: u32) -> Seq<u8> {
    if cp <= 0x7F {
        seq![cp as u8]
    } else if cp <= 0x7FF {
        seq![0xC0u8 | ((cp >> 6) as u8), 0x80u8 | ((cp & 0x3F) as u8)]
    } else if cp <= 0xFFFF {
        seq![
            0xE0u8 | ((cp >> 12) as u8),
            0x80u8 | (((cp >> 6) & 0x3F) as u8),
            0x80u8 | ((cp & 0x3F) as u8),
        ]
    } else if cp <= 0x10FFFF {
        seq![
            0xF0u8 | ((cp >> 18) as u8),
            0x80u8 | (((cp >> 12) & 0x3F) as u8),
            0x80u8 | (((cp >> 6) & 0x3F) as u8),
            0x80u8 | ((cp & 0x3F) as u8),
        ]
    } else {
        Seq::empty()
    }
}

/// `s` with its bytes from `pos` on replaced by `ins`.
pub open spec fn splice(s: Seq<u8>, pos: int, ins: Seq<u8>) -> Seq<u8> {
    s.take(pos) + ins + s.skip(pos + ins.len())
}

/// Writes the UTF-8 encoding of `cp` at `pos`; `None` when the code point
/// is out of range or the bytes do not fit.
pub fn encode_utf8(cp: u32, out: &mut Vec<u8>, pos: usize) -> (r: Option<usize>)
    ensures
        utf8_bytes(cp).len() == utf8_len(cp),
        match r {
            Some(n) => {
                &&& utf8_len(cp) > 0
                &&& n == pos + utf8_len(cp)
                &&& n <= old(out)@.len()
                &&& final(out)@ == splice(old(out)@, pos as int, utf8_bytes(cp))
            },
            None => {
                &&& (utf8_len(cp) == 0 || pos + utf8_len(cp) > old(out)@.len())
                &&& final(out)@ == old(out)@
            },
        },
{
    if cp <= 0x7F {
        if pos >= out.len() {
            return None;
        }
        out.set(pos, cp as u8);
        assert(out@ =~= splice(old(out)@, pos as int, utf8_bytes(cp)));
        Some(pos + 1)
    } else if cp <= 0x7FF {
        if pos >= out.len() || pos + 1 >= out.len() {
            return None;
        }
        out.set(pos, 0xC0u8 | ((cp >> 6) as u8));
        out.set(pos + 1, 0x80u8 | ((cp & 0x3F) as u8));
        assert(out@ =~= splice(old(out)@, pos as int, utf8_bytes(cp)));
        Some(pos + 2)
    } else if cp <= 0xFFFF {
        if pos >= out.len() || out.len() - pos < 3 {
            return None;
        }
        out.set(pos, 0xE0u8 | ((cp >> 12) as u8));
        out.set(pos + 1, 0x80u8 | (((cp >> 6) & 0x3F) as u8));
        out.set(pos + 2, 0x80u8 | ((cp & 0x3F) as u8));
        assert(out@ =~= splice(old(out)@, pos as int, utf8_bytes(cp)));
        Some(pos + 3)
    } else if cp <= 0x10FFFF {
        if pos >= out.len() || out.len() - pos < 4 {
            return None;
        }
        out.set(pos, 0xF0u8 | ((cp >> 18) as u8));
        out.set(pos + 1, 0x80u8 | (((cp >> 12) & 0x3F) as u8));
        out.set(pos + 2, 0x80u8 | (((cp >> 6) & 0x3F) as u8));
        out.set(pos + 3, 0x80u8 | ((cp & 0x3F) as u8));
        assert(out@ =~= splice(old(out)@, pos as int, utf8_bytes(cp)));
        Some(pos + 4)
    } else {
        None
    }
}


// ---------------------------------------------------------------------
// String literals
// ---------------------------------------------------------------------

/// The byte a single-character escape (`\"`, `\\`, `\/`, `\n`, `\r`,
/// `\t`, `\b`, `\f`) stands for.
pub open spec fn simple_escape(e: u8) -> Option<u8> {
    if e == QUOTE {
        Some(QUOTE)
    } else if e == BACKSLASH {
        Some(BACKSLASH)
    } else if e == SLASH {
        Some(SLASH)
    } else if e == 0x6e {
        Some(NEWLINE)
    } else if e == 0x72 {
        Some(CR)
    } else if e == 0x74 {
        Some(TAB)
    } else if e == 0x62 {
        Some(0x08)
    } else if e == 0x66 {
        Some(0x0c)
    } else {
        None
    }
}

pub fn escape_byte(e: u8) -> (r: Option<u8>)
    ensures
        r == simple_escape(e),
{
    if e == QUOTE {
        Some(QUOTE)
    } else if e == BACKSLASH {
        Some(BACKSLASH)
    } else if e == SLASH {
        Some(SLASH)
    } else if e == 0x6e {
        Some(NEWLINE)
    } else if e == 0x72 {
        Some(CR)
    } else if e == 0x74 {
        Some(TAB)
    } else if e == 0x62 {
        Some(0x08)
    } else if e == 0x66 {
        Some(0x0c)
    } else {
        None
    }
}

/// A `\u` escape whose `u` sits at index `u`: the code point it denotes
/// (a surrogate pair `\uHHHH\uLLLL` combined into one) and the index after
/// it. Lone or reversed surrogates have no meaning.
pub open spec fn unicode_escape(buf: Seq<u8>, u: int) -> Option<(u32, int)> {
    if u < 0 || u + 4 >= buf.len() {
        None
    } else {
        match spec_hex4(buf.subrange(u + 1, u + 5)) {
            None => None,
            Some(high) => {
                let j = u + 5;
                if 0xD800 <= high <= 0xDBFF {
                    if j + 5 >= buf.len() || buf[j] != BACKSLASH || buf[j + 1] != 0x75 {
                        None
                    } else {
                        match spec_hex4(buf.subrange(j + 2, j + 6)) {
                            None => None,
                            Some(low) => if 0xDC00 <= low <= 0xDFFF {
                                Some(
                                    (
                                        (0x10000 + (high - 0xD800) * 1024 + (low
                                            - 0xDC00)) as u32,
                                        j + 6,
                                    ),
                                )
                            } else {
                                None
                            },
                        }
                    }
                } else if 0xDC00 <= high <= 0xDFFF {
                    None
                } else {
                    Some((high as u32, j))
                }
            },
        }
    }
}

/// Prefix the decoded part of a decoding result with `p`.
pub open spec fn prepend(p: Seq<u8>, r: Option<(Seq<u8>, int)>) -> Option<(Seq<u8>, int)> {
    match r {
        Some((s, e)) => Some((p + s, e)),
        None => None,
    }
}

/// Decoding of a string body that starts at index `i` (just after the
/// opening quote): the decoded bytes and the index after the closing
/// quote. `None` for a malformed or unterminated body.
pub open spec fn json_body(buf: Seq<u8>, i: int) -> Option<(Seq<u8>, int)>
    decreases buf.len() - i,
{
    if i < 0 || i >= buf.len() {
        None
    } else if buf[i] == QUOTE {
        Some((Seq::empty(), i + 1))
    } else if buf[i] == BACKSLASH {
        if i + 1 >= buf.len() {
            None
        } else {
            match simple_escape(buf[i + 1]) {
                Some(c) => prepend(seq![c], json_body(buf, i + 2)),
                None => if buf[i + 1] == 0x75 {
                    match unicode_escape(buf, i + 1) {
                        None => None,
                        Some((cp, next)) => if utf8_len(cp) == 0 || next <= i {
                            None
                        } else {
                            prepend(utf8_bytes(cp), json_body(buf, next))
                        },
                    }
                } else {
                    None
                },
            }
        }
    } else {
        prepend(seq![buf[i]], json_body(buf, i + 1))
    }
}

/// Decoding of the string literal whose opening quote sits at `idx`.
pub open spec fn json_string_at(buf: Seq<u8>, idx: int) -> Option<(Seq<u8>, int)> {
    if 0 <= idx < buf.len() && buf[idx] == QUOTE {
        json_body(buf, idx + 1)
    } else {
        None
    }
}

pub proof fn lemma_prepend_assoc(a: Seq<u8>, b: Seq<u8>, r: Option<(Seq<u8>, int)>)
    ensures
        prepend(a, prepend(b, r)) == prepend(a + b, r),
{
    match r {
        Some((s, e)) => {
            assert(a + (b + s) =~= (a + b) + s);
        },
        None => {},
    }
}

/// Reads the code point of the `\u` escape whose `u` is at `u`.
fn read_unicode_escape(buf: &[u8], u: usize) -> (r: Option<(u32, usize)>)
    ensures
        match r {
            Some((cp, next)) => unicode_escape(buf@, u as int) == Some((cp, next as int)),
            None => unicode_escape(buf@, u as int) is None,
        },
{
    if u >= buf.len() || buf.len() - u <= 4 {
        return None;
    }
    let high = match decode_hex4(vstd::slice::slice_subrange(buf, u + 1, u + 5)) {
        Some(v) => v,
        None => return None,
    };
    let j = u + 5;
    if 0xD800 <= high && high <= 0xDBFF {
        if j >= buf.len() || buf.len() - j <= 5 || buf[j] != BACKSLASH || buf[j + 1] != 0x75 {
            return None;
        }
        let low = match decode_hex4(vstd::slice::slice_subrange(buf, j + 2, j + 6)) {
            Some(v) => v,
            None => return None,
        };
        if !(0xDC00 <= low && low <= 0xDFFF) {
            return None;
        }
        let cp: u32 = 0x10000 + ((high as u32) - 0xD800) * 1024 + ((low as u32) - 0xDC00);
        Some((cp, j + 6))
    } else if 0xDC00 <= high && high <= 0xDFFF {
        None
    } else {
        Some((high as u32, j))
    }
}

/// Decodes the string literal at `idx` into `out`. `Ok((n, end))` gives the
/// decoded length (the bytes are `out[..n]`) and the index after the closing
/// quote; any malformed literal, or one whose decoding does not fit in
/// `out`, is `DecodeMalformed`.
pub fn parse_json_string(buf: &[u8], idx: usize, out: &mut Vec<u8>) -> (r: Result<
    (usize, usize),
    DenoRuntimeError,
>)
    ensures
        final(out)@.len() == old(out)@.len(),
        match r {
            Ok((n, end)) => {
                &&& n <= final(out)@.len()
                &&& json_string_at(buf@, idx as int) == Some((final(out)@.take(n as int), end as int))
            },
            Err(e) => {
                &&& e == DenoRuntimeError::DecodeMalformed
                &&& json_string_at(buf@, idx as int) matches Some((s, _)) ==> s.len() > old(
                    out,
                )@.len()
            },
        },
{
    if idx >= buf.len() || buf[idx] != QUOTE {
        return Err(DenoRuntimeError::DecodeMalformed);
    }
    let mut i = idx + 1;
    let mut o: usize = 0;
    assert(out@.take(0) =~= Seq::<u8>::empty());
    assert(prepend(Seq::<u8>::empty(), json_body(buf@, i as int)) == json_body(buf@, i as int))
        by {
        match json_body(buf@, i as int) {
            Some((s, e)) => {
                assert(Seq::<u8>::empty() + s =~= s);
            },
            None => {},
        }
    }
    while i < buf.len()
        invariant
            idx < i,
            o <= out@.len(),
            out@.len() == old(out)@.len(),
            json_string_at(buf@, idx as int) == prepend(out@.take(o as int), json_body(buf@, i as int)),
        decreases buf.len() - i,
    {
        let b = buf[i];
        if b == QUOTE {
            assert(out@.take(o as int) + Seq::<u8>::empty() =~= out@.take(o as int));
            return Ok((o, i + 1));
        }
        if b == BACKSLASH {
            if i + 1 >= buf.len() {
                return Err(DenoRuntimeError::DecodeMalformed);
            }
            let e = buf[i + 1];
            match escape_byte(e) {
                Some(c) => {
                    proof {
                        lemma_prepend_assoc(out@.take(o as int), seq![c], json_body(buf@, i + 2));
                    }
                    if o >= out.len() {
                        return Err(DenoRuntimeError::DecodeMalformed);
                    }
                    let ghost prev = out@;
                    out.set(o, c);
                    assert(out@.take(o + 1) =~= prev.take(o as int) + seq![c]);
                    o = o + 1;
                    i = i + 2;
                },
                None => {
                    if e != 0x75 {
                        return Err(DenoRuntimeError::DecodeMalformed);
                    }
                    let (cp, next) = match read_unicode_escape(buf, i + 1) {
                        Some(v) => v,
                        None => return Err(DenoRuntimeError::DecodeMalformed),
                    };
                    proof {
                        lemma_prepend_assoc(
                            out@.take(o as int),
                            utf8_bytes(cp),
                            json_body(buf@, next as int),
                        );
                    }
                    let ghost prev = out@;
                    match encode_utf8(cp, out, o) {
                        Some(n) => {
                            assert(out@.take(n as int) =~= prev.take(o as int) + utf8_bytes(cp));
                            o = n;
                        },
                        None => {
                            return Err(DenoRuntimeError::DecodeMalformed);
                        },
                    }
                    i = next;
                },
            }
        } else {
            proof {
                lemma_prepend_assoc(out@.take(o as int), seq![b], json_body(buf@, i + 1));
            }
            if o >= out.len() {
                return Err(DenoRuntimeError::DecodeMalformed);
            }
            let ghost prev = out@;
            out.set(o, b);
            assert(out@.take(o + 1) =~= prev.take(o as int) + seq![b]);
            o = o + 1;
            i = i + 1;
        }
    }
    Err(DenoRuntimeError::DecodeMalformed)
}

// ---------------------------------------------------------------------
// Unsigned integers
// ---------------------------------------------------------------------

pub open spec fn is_digit(b: u8) -> bool {
    0x30 <= b <= 0x39
}

/// First index at or after `i` that is not an ASCII digit.
pub open spec fn digits_end(buf: Seq<u8>, i: int) -> int
    decreases buf.len() - i,
{
    if 0 <= i < buf.len() && is_digit(buf[i]) {
        digits_end(buf, i + 1)
    } else {
        i
    }
}

/// Decimal value of a run of ASCII digits.
pub open spec fn dec_value(s: Seq<u8>) -> nat
    decreases s.len(),
{
    if s.len() == 0 {
        0
    } else {
        dec_value(s.drop_last()) * 10 + (s.last() - 0x30) as nat
    }
}

/// The unsigned integer whose digits start at `idx` and the index after
/// its last digit; `None` without digits or above `u32::MAX`.
pub open spec fn spec_parse_u32(buf: Seq<u8>, idx: int) -> Option<(u32, int)> {
    let e = digits_end(buf, idx);
    if e == idx {
        None
    } else if dec_value(buf.subrange(idx, e)) > u32::MAX {
        None
    } else {
        Some((dec_value(buf.subrange(idx, e)) as u32, e))
    }
}

proof fn lemma_digits_end(buf: Seq<u8>, i: int)
    requires
        0 <= i,
    ensures
        i <= digits_end(buf, i),
        i <= buf.len() ==> digits_end(buf, i) <= buf.len(),
        forall|k: int| i <= k < digits_end(buf, i) ==> is_digit(#[trigger] buf[k]),
    decreases buf.len() - i,
{
    if 0 <= i < buf.len() && is_digit(buf[i]) {
        lemma_digits_end(buf, i + 1);
    }
}

/// A longer run of digits never has a smaller value.
proof fn lemma_dec_value_mono(buf: Seq<u8>, a: int, k: int, e: int)
    requires
        0 <= a <= k <= e <= buf.len(),
        forall|m: int| a <= m < e ==> is_digit(#[trigger] buf[m]),
    ensures
        dec_value(buf.subrange(a, k)) <= dec_value(buf.subrange(a, e)),
    decreases e - k,
{
    if k < e {
        lemma_dec_value_mono(buf, a, k, e - 1);
        assert(buf.subrange(a, e).drop_last() =~= buf.subrange(a, e - 1));
    }
}

/// Appending one ASCII digit (`0` included) to a run of digits multiplies
/// its value by ten and adds the digit: the value is positional, base ten.
pub proof fn lemma_dec_value_push_digit(s: Seq<u8>, d: u8)
    requires
        is_digit(d),
    ensures
        dec_value(s.push(d)) == 10 * dec_value(s) + (d - 0x30),
{
    assert(s.push(d).drop_last() =~= s);
}

/// The rendered digits of `n` are all ASCII digits, and there is at least one.
proof fn lemma_dec_digits_are_digits(n: nat)
    ensures
        dec_digits(n).len() >= 1,
        forall|k: int| 0 <= k < dec_digits(n).len() ==> is_digit(#[trigger] dec_digits(n)[k]),
    decreases n,
{
    if n >= 10 {
        lemma_dec_digits_are_digits(n / 10);
        let d = dec_digits(n / 10);
        let c = (0x30 + n % 10) as u8;
        assert forall|k: int| 0 <= k < dec_digits(n).len() implies is_digit(
            #[trigger] dec_digits(n)[k],
        ) by {
            if k < d.len() {
                assert(dec_digits(n)[k] == d[k]);
            } else {
                assert(dec_digits(n)[k] == c);
            }
        }
    }
}

/// Reading back the rendered digits of `n` gives `n`.
pub proof fn lemma_dec_value_of_digits(n: nat)
    ensures
        dec_value(dec_digits(n)) == n,
    decreases n,
{
    if n < 10 {
        assert(dec_digits(n).drop_last() =~= Seq::<u8>::empty());
        let s = dec_digits(n);
        assert(s.last() == (0x30 + n) as u8);
        assert(dec_value(s) == dec_value(s.drop_last()) * 10 + (s.last() - 0x30) as nat);
    } else {
        lemma_dec_value_of_digits(n / 10);
        assert(dec_digits(n).drop_last() =~= dec_digits(n / 10));
        let s = dec_digits(n);
        assert(s.last() == (0x30 + n % 10) as u8);
        assert(s.last() - 0x30 == n % 10);
        assert(dec_value(s) == dec_value(s.drop_last()) * 10 + (s.last() - 0x30) as nat);
        assert((n / 10) * 10 + n % 10 == n) by (nonlinear_arith);
    }
}

proof fn lemma_digits_end_over(p: Seq<u8>, d: Seq<u8>, q: Seq<u8>, k: int)
    requires
        0 <= k <= d.len(),
        forall|m: int| 0 <= m < d.len() ==> is_digit(#[trigger] d[m]),
        q.len() > 0 ==> !is_digit(q[0]),
    ensures
        digits_end(p + d + q, p.len() + k) == p.len() + d.len(),
    decreases d.len() - k,
{
    let buf = p + d + q;
    if k < d.len() {
        assert(buf[p.len() + k] == d[k]);
        lemma_digits_end_over(p, d, q, k + 1);
    } else if q.len() > 0 {
        assert(buf[(p.len() + d.len()) as int] == q[0]);
    }
}

/// A number written in decimal and followed by anything but a digit is read
/// back as itself, wherever it stands, with the read ending after its last
/// digit, when it fits in a `u32`; above `u32::MAX` it is refused.
pub proof fn lemma_parse_u32_reads_digits(p: Seq<u8>, n: nat, q: Seq<u8>)
    requires
        q.len() > 0 ==> !is_digit(q[0]),
    ensures
        n <= u32::MAX ==> spec_parse_u32(p + dec_digits(n) + q, p.len() as int) == Some(
            (n as u32, (p.len() + dec_digits(n).len()) as int),
        ),
        n > u32::MAX ==> spec_parse_u32(p + dec_digits(n) + q, p.len() as int) is None,
{
    let d = dec_digits(n);
    let buf = p + d + q;
    lemma_dec_digits_are_digits(n);
    lemma_digits_end_over(p, d, q, 0);
    lemma_dec_value_of_digits(n);
    assert(buf.subrange(p.len() as int, (p.len() + d.len()) as int) =~= d);
}

/// Where no digit stands at the read position there is no number.
pub proof fn lemma_parse_u32_needs_digit(buf: Seq<u8>, idx: int)
    requires
        0 <= idx,
        idx < buf.len() ==> !is_digit(buf[idx]),
    ensures
        spec_parse_u32(buf, idx) is None,
{
}

pub fn parse_json_u32(buf: &[u8], idx: usize) -> (r: Result<(u32, usize), DenoRuntimeError>)
    ensures
        match r {
            Ok((v, end)) => spec_parse_u32(buf@, idx as int) == Some((v, end as int)),
            Err(e) => e == DenoRuntimeError::DecodeMalformed && spec_parse_u32(
                buf@,
                idx as int,
            ) is None,
        },
{
    let mut i = idx;
    let mut n: u32 = 0;
    proof {
        lemma_digits_end(buf@, idx as int);
    }
    while i < buf.len() && 0x30 <= buf[i] && buf[i] <= 0x39
        invariant
            idx <= i,
            i <= buf.len() || i == idx,
            digits_end(buf@, idx as int) == digits_end(buf@, i as int),
            idx as int <= digits_end(buf@, idx as int),
            forall|k: int|
                idx <= k < digits_end(buf@, idx as int) ==> is_digit(#[trigger] buf@[k]),
            idx < i ==> i <= buf.len() && n as nat == dec_value(buf@.subrange(idx as int, i as int)),
            idx == i ==> n == 0,
        decreases buf.len() - i,
    {
        let d = (buf[i] - 0x30) as u32;
        assert(buf@.subrange(idx as int, i + 1).drop_last() =~= buf@.subrange(idx as int, i as int));
        let m = n.checked_mul(10);
        match m {
            Some(t) => {
                let s = t.checked_add(d);
                match s {
                    Some(v) => {
                        proof {
                            let sub = buf@.subrange(idx as int, i + 1);
                            assert(sub.drop_last() =~= buf@.subrange(idx as int, i as int));
                            assert(sub.last() == buf@[i as int]);
                            if idx == i {
                                assert(buf@.subrange(idx as int, i as int) =~= Seq::<u8>::empty());
                            }
                            assert(dec_value(sub) == dec_value(sub.drop_last()) * 10 + (sub.last()
                                - 0x30) as nat);
                        }
                        n = v;
                    },
                    None => {
                        proof {
                            lemma_digits_end(buf@, i + 1);
                            lemma_digits_end(buf@, idx as int);
                            lemma_dec_value_mono(buf@, idx as int, i + 1, digits_end(buf@, idx as int));
                        }
                        return Err(DenoRuntimeError::DecodeMalformed);
                    },
                }
            },
            None => {
                proof {
                    lemma_digits_end(buf@, i + 1);
                    lemma_digits_end(buf@, idx as int);
                    lemma_dec_value_mono(buf@, idx as int, i + 1, digits_end(buf@, idx as int));
                }
                return Err(DenoRuntimeError::DecodeMalformed);
            },
        }
        i = i + 1;
    }
    if i == idx {
        return Err(DenoRuntimeError::DecodeMalformed);
    }
    Ok((n, i))
}


// ---------------------------------------------------------------------
// Key scan
// ---------------------------------------------------------------------

pub open spec fn sat_inc(d: u32) -> u32 {
    if d == u32::MAX {
        d
    } else {
        (d + 1) as u32
    }
}

pub open spec fn sat_dec(d: u32) -> u32 {
    if d == 0 {
        0
    } else {
        (d - 1) as u32
    }
}

/// First index at or after `j` that is neither a space nor a tab.
pub open spec fn skip_blank(buf: Seq<u8>, j: int) -> int
    decreases buf.len() - j,
{
    if 0 <= j < buf.len() && (buf[j] == SPACE || buf[j] == TAB) {
        skip_blank(buf, j + 1)
    } else {
        j
    }
}

/// With a quote at `idx`: when `"<key>"` follows, then blanks and a colon,
/// the index after the colon.
pub open spec fn key_marker_at(buf: Seq<u8>, key: Seq<u8>, idx: int) -> Option<int> {
    let kl = key.len();
    if idx + 1 + kl < buf.len() && occurs_at(buf, idx + 1, key) && buf[idx + 1 + kl] == QUOTE {
        let j = skip_blank(buf, idx + 2 + kl);
        if 0 <= j < buf.len() && buf[j] == COLON {
            Some(j + 1)
        } else {
            None
        }
    } else {
        None
    }
}

/// The scan from `idx` in the given lexical state (nesting depth, inside a
/// string or not): the position after the colon of the first `"<key>":`
/// whose opening quote sits at nesting depth `target + 1`, outside any
/// string.
pub open spec fn key_scan(
    buf: Seq<u8>,
    key: Seq<u8>,
    target: u32,
    idx: int,
    depth: u32,
    in_string: bool,
) -> Option<int>
    decreases buf.len() + 1 - idx,
{
    if idx < 0 || idx >= buf.len() {
        None
    } else {
        let b = buf[idx];
        if in_string {
            if b == BACKSLASH {
                key_scan(buf, key, target, idx + 2, depth, true)
            } else if b == QUOTE {
                key_scan(buf, key, target, idx + 1, depth, false)
            } else {
                key_scan(buf, key, target, idx + 1, depth, true)
            }
        } else if b == LBRACE || b == LBRACKET {
            key_scan(buf, key, target, idx + 1, sat_inc(depth), false)
        } else if b == RBRACE || b == RBRACKET {
            key_scan(buf, key, target, idx + 1, sat_dec(depth), false)
        } else if b == QUOTE {
            if depth == target + 1 && key_marker_at(buf, key, idx) is Some {
                key_marker_at(buf, key, idx)
            } else {
                key_scan(buf, key, target, idx + 1, depth, true)
            }
        } else {
            key_scan(buf, key, target, idx + 1, depth, false)
        }
    }
}

/// Where the value of `"<key>":` at nesting depth `target` begins.
pub open spec fn spec_find_key_at_depth(buf: Seq<u8>, key: Seq<u8>, target: u32) -> Option<int> {
    if buf.len() < key.len() + 4 {
        None
    } else {
        key_scan(buf, key, target, 0, 0, false)
    }
}

pub open spec fn spec_find_key(buf: Seq<u8>, key: Seq<u8>) -> Option<int> {
    spec_find_key_at_depth(buf, key, 0)
}

/// Scans `buf` for the top-level (`target_depth == 0`) or nested key marker
/// `"<key>":` and returns the index just after its colon.
pub fn find_key_at_depth(buf: &[u8], key: &[u8], target_depth: u32) -> (r: Option<usize>)
    requires
        target_depth < u32::MAX,
    ensures
        match r {
            Some(p) => spec_find_key_at_depth(buf@, key@, target_depth) == Some(p as int),
            None => spec_find_key_at_depth(buf@, key@, target_depth) is None,
        },
{
    if buf.len() < 4 || buf.len() - 4 < key.len() {
        return None;
    }
    let mut idx: usize = 0;
    let kl = key.len();
    let mut depth: u32 = 0;
    let mut in_string = false;
    while idx < buf.len()
        invariant
            kl == key@.len(),
            kl + 4 <= buf@.len(),
            target_depth < u32::MAX,
            spec_find_key_at_depth(buf@, key@, target_depth) == key_scan(
                buf@,
                key@,
                target_depth,
                idx as int,
                depth,
                in_string,
            ),
        decreases buf.len() + 1 - idx,
    {
        let b = buf[idx];
        if in_string {
            if b == BACKSLASH {
                if idx < usize::MAX - 1 {
                    idx = idx + 2;
                } else {
                    assert(key_scan(buf@, key@, target_depth, idx + 2, depth, true) is None);
                    assert(buf.len() == usize::MAX);
                    idx = usize::MAX;
                    assert(key_scan(buf@, key@, target_depth, idx as int, depth, true) is None);
                }
                continue;
            }
            if b == QUOTE {
                in_string = false;
                idx = idx + 1;
                continue;
            }
            idx = idx + 1;
            continue;
        }
        if b == LBRACE || b == LBRACKET {
            if depth < u32::MAX {
                depth = depth + 1;
            }
            idx = idx + 1;
            continue;
        }
        if b == RBRACE || b == RBRACKET {
            if depth > 0 {
                depth = depth - 1;
            }
            idx = idx + 1;
            continue;
        }
        if b == QUOTE {
            if depth == target_depth + 1 && kl < buf.len() - idx - 1 && bytes_at(buf, idx + 1, key)
                && buf[idx + 1 + kl] == QUOTE {
                let mut j = idx + 2 + kl;
                while j < buf.len() && (buf[j] == SPACE || buf[j] == TAB)
                    invariant
                        idx + 2 + kl <= j,
                        skip_blank(buf@, idx + 2 + kl) == skip_blank(buf@, j as int),
                    decreases buf.len() - j,
                {
                    j = j + 1;
                }
                if j < buf.len() && buf[j] == COLON {
                    return Some(j + 1);
                }
            }
            in_string = true;
            idx = idx + 1;
            continue;
        }
        idx = idx + 1;
    }
    None
}

/// Top-level key lookup.
pub fn find_key(buf: &[u8], key: &[u8]) -> (r: Option<usize>)
    ensures
        match r {
            Some(p) => spec_find_key(buf@, key@) == Some(p as int),
            None => spec_find_key(buf@, key@) is None,
        },
{
    find_key_at_depth(buf, key, 0)
}


// ---------------------------------------------------------------------
// Messages
// ---------------------------------------------------------------------

pub open spec fn key_done() -> Seq<u8> {
    "done".spec_bytes()
}

pub open spec fn key_err() -> Seq<u8> {
    "err".spec_bytes()
}

pub open spec fn key_diag() -> Seq<u8> {
    "diag".spec_bytes()
}

pub open spec fn word_true() -> Seq<u8> {
    "true".spec_bytes()
}

/// A diagnostic as carried by a `diag` message: each string is the
/// decoded literal, absent keys give the empty string or zero.
pub struct DiagView {
    pub plugin_id: Seq<u8>,
    pub rule_id: Seq<u8>,
    pub severity: Seq<u8>,
    pub message: Seq<u8>,
    pub path: Seq<u8>,
    pub line: u32,
    pub column: u32,
}

pub enum MessageView {
    Done,
    Error,
    Diag(DiagView),
}

/// One decoded diagnostic with per-field fixed-capacity buffers; the
/// field's bytes are the first `*_len` bytes of its buffer.
pub struct ParsedDiag {
    pub plugin_id: Vec<u8>,
    pub plugin_id_len: usize,
    pub rule_id: Vec<u8>,
    pub rule_id_len: usize,
    pub severity: Vec<u8>,
    pub severity_len: usize,
    pub message: Vec<u8>,
    pub message_len: usize,
    pub path: Vec<u8>,
    pub path_len: usize,
    pub line: u32,
    pub column: u32,
}

impl ParsedDiag {
    pub open spec fn wf(&self) -> bool {
        &&& self.plugin_id_len <= self.plugin_id@.len()
        &&& self.rule_id_len <= self.rule_id@.len()
        &&& self.severity_len <= self.severity@.len()
        &&& self.message_len <= self.message@.len()
        &&& self.path_len <= self.path@.len()
    }

    pub open spec fn view(&self) -> DiagView {
        DiagView {
            plugin_id: self.plugin_id@.take(self.plugin_id_len as int),
            rule_id: self.rule_id@.take(self.rule_id_len as int),
            severity: self.severity@.take(self.severity_len as int),
            message: self.message@.take(self.message_len as int),
            path: self.path@.take(self.path_len as int),
            line: self.line,
            column: self.column,
        }
    }
}

pub enum ParsedMessage {
    Done,
    Error,
    Diag(ParsedDiag),
}

impl ParsedMessage {
    pub open spec fn view(&self) -> MessageView {
        match self {
            ParsedMessage::Done => MessageView::Done,
            ParsedMessage::Error => MessageView::Error,
            ParsedMessage::Diag(d) => MessageView::Diag(d.view()),
        }
    }

    pub open spec fn wf(&self) -> bool {
        match self {
            ParsedMessage::Diag(d) => d.wf(),
            _ => true,
        }
    }
}

/// A string field of a diag body: absent gives the empty string; present
/// must decode and fit within `cap` bytes.
pub open spec fn string_field(inner: Seq<u8>, key: Seq<u8>, cap: nat) -> Option<Seq<u8>> {
    match spec_find_key(inner, key) {
        None => Some(Seq::empty()),
        Some(at) => match json_string_at(inner, spec_skip_ws(inner, at)) {
            Some((s, _)) => if s.len() <= cap {
                Some(s)
            } else {
                None
            },
            None => None,
        },
    }
}

/// An integer field of a diag body: absent gives zero.
pub open spec fn u32_field(inner: Seq<u8>, key: Seq<u8>) -> Option<u32> {
    match spec_find_key(inner, key) {
        None => Some(0),
        Some(at) => match spec_parse_u32(inner, spec_skip_ws(inner, at)) {
            Some((v, _)) => Some(v),
            None => None,
        },
    }
}

/// The leftmost of the three kind markers (`done` = 0, `err` = 1,
/// `diag` = 2); on a tie the earlier-named kind wins.
pub open spec fn spec_message_kind(buf: Seq<u8>) -> Option<(int, u8)> {
    let b0: Option<(int, u8)> = match spec_find_key(buf, key_done()) {
        Some(i) => Some((i, 0u8)),
        None => None,
    };
    let b1: Option<(int, u8)> = match spec_find_key(buf, key_err()) {
        Some(i) => match b0 {
            Some((j, k)) => if i >= j {
                b0
            } else {
                Some((i, 1u8))
            },
            None => Some((i, 1u8)),
        },
        None => b0,
    };
    match spec_find_key(buf, key_diag()) {
        Some(i) => match b1 {
            Some((j, k)) => if i >= j {
                b1
            } else {
                Some((i, 2u8))
            },
            None => Some((i, 2u8)),
        },
        None => b1,
    }
}

/// The diag payload of a `diag` message body.
pub open spec fn spec_diag_body(inner: Seq<u8>) -> Option<DiagView> {
    match (
        string_field(inner, "plugin_id".spec_bytes(), PLUGIN_ID_CAP as nat),
        string_field(inner, "rule_id".spec_bytes(), RULE_ID_CAP as nat),
        string_field(inner, "severity".spec_bytes(), SEVERITY_CAP as nat),
        string_field(inner, "message".spec_bytes(), MESSAGE_CAP as nat),
        string_field(inner, "path".spec_bytes(), PATH_CAP as nat),
        u32_field(inner, "line".spec_bytes()),
        u32_field(inner, "column".spec_bytes()),
    ) {
        (Some(p), Some(r), Some(s), Some(m), Some(pa), Some(l), Some(c)) => Some(
            DiagView { plugin_id: p, rule_id: r, severity: s, message: m, path: pa, line: l, column: c },
        ),
        _ => None,
    }
}

/// What one worker line means.
pub open spec fn spec_parse_message(line: Seq<u8>) -> Option<MessageView> {
    let buf = spec_trim(line);
    match spec_message_kind(buf) {
        None => None,
        Some((idx, kind)) => {
            let after = spec_skip_ws(buf, idx);
            if kind == 0 {
                if occurs_at(buf, after, word_true()) {
                    Some(MessageView::Done)
                } else {
                    None
                }
            } else if kind == 1 {
                Some(MessageView::Error)
            } else {
                let inner_start = spec_skip_ws(buf, after);
                if inner_start >= buf.len() || buf[inner_start] != LBRACE {
                    None
                } else {
                    match spec_diag_body(buf.subrange(inner_start, buf.len() as int)) {
                        Some(d) => Some(MessageView::Diag(d)),
                        None => None,
                    }
                }
            }
        },
    }
}

fn zeroed(n: usize) -> (r: Vec<u8>)
    ensures
        r@.len() == n,
{
    let mut v: Vec<u8> = Vec::new();
    while v.len() < n
        invariant
            v@.len() <= n,
        decreases n - v.len(),
    {
        v.push(0);
    }
    v
}

/// Decodes an optional string field into `out`; the result is its length.
fn read_string_field(inner: &[u8], key: &str, out: &mut Vec<u8>) -> (r: Result<
    usize,
    DenoRuntimeError,
>)
    ensures
        final(out)@.len() == old(out)@.len(),
        match r {
            Ok(n) => n <= final(out)@.len() && string_field(
                inner@,
                key.spec_bytes(),
                old(out)@.len(),
            ) == Some(final(out)@.take(n as int)),
            Err(e) => e == DenoRuntimeError::DecodeMalformed && string_field(
                inner@,
                key.spec_bytes(),
                old(out)@.len(),
            ) is None,
        },
{
    match find_key(inner, key.as_bytes()) {
        Some(at) => {
            let p = skip_ws(inner, at);
            match parse_json_string(inner, p, out) {
                Ok((l, _)) => Ok(l),
                Err(e) => Err(e),
            }
        },
        None => {
            assert(out@.take(0) =~= Seq::<u8>::empty());
            Ok(0)
        },
    }
}

fn read_u32_field(inner: &[u8], key: &str) -> (r: Result<u32, DenoRuntimeError>)
    ensures
        match r {
            Ok(v) => u32_field(inner@, key.spec_bytes()) == Some(v),
            Err(e) => e == DenoRuntimeError::DecodeMalformed && u32_field(
                inner@,
                key.spec_bytes(),
            ) is None,
        },
{
    match find_key(inner, key.as_bytes()) {
        Some(at) => {
            let p = skip_ws(inner, at);
            match parse_json_u32(inner, p) {
                Ok((v, _)) => Ok(v),
                Err(e) => Err(e),
            }
        },
        None => Ok(0),
    }
}

fn parse_diag_body(inner: &[u8]) -> (r: Result<ParsedDiag, DenoRuntimeError>)
    ensures
        match r {
            Ok(d) => d.wf() && spec_diag_body(inner@) == Some(d.view()),
            Err(e) => e == DenoRuntimeError::DecodeMalformed && spec_diag_body(inner@) is None,
        },
{
    let mut diag = ParsedDiag {
        plugin_id: zeroed(PLUGIN_ID_CAP),
        plugin_id_len: 0,
        rule_id: zeroed(RULE_ID_CAP),
        rule_id_len: 0,
        severity: zeroed(SEVERITY_CAP),
        severity_len: 0,
        message: zeroed(MESSAGE_CAP),
        message_len: 0,
        path: zeroed(PATH_CAP),
        path_len: 0,
        line: 0,
        column: 0,
    };
    diag.plugin_id_len = read_string_field(inner, "plugin_id", &mut diag.plugin_id)?;
    diag.rule_id_len = read_string_field(inner, "rule_id", &mut diag.rule_id)?;
    diag.severity_len = read_string_field(inner, "severity", &mut diag.severity)?;
    diag.message_len = read_string_field(inner, "message", &mut diag.message)?;
    diag.path_len = read_string_field(inner, "path", &mut diag.path)?;
    diag.line = read_u32_field(inner, "line")?;
    diag.column = read_u32_field(inner, "column")?;
    Ok(diag)
}

/// Decodes one worker line into its message.
pub fn parse_message(line: &[u8]) -> (r: Result<ParsedMessage, DenoRuntimeError>)
    ensures
        match r {
            Ok(m) => m.wf() && spec_parse_message(line@) == Some(m.view()),
            Err(e) => e == DenoRuntimeError::DecodeMalformed && spec_parse_message(line@) is None,
        },
{
    let buf = trim_ws(line);
    let done_at = find_key(buf, "done".as_bytes());
    let err_at = find_key(buf, "err".as_bytes());
    let diag_at = find_key(buf, "diag".as_bytes());

    let mut best: Option<(usize, u8)> = None;
    if let Some(i) = done_at {
        best = Some((i, 0));
    }
    if let Some(i) = err_at {
        best = match best {
            Some((j, k)) => if i >= j {
                best
            } else {
                Some((i, 1))
            },
            None => Some((i, 1)),
        };
    }
    if let Some(i) = diag_at {
        best = match best {
            Some((j, k)) => if i >= j {
                best
            } else {
                Some((i, 2))
            },
            None => Some((i, 2)),
        };
    }
    let (idx, kind) = match best {
        Some(v) => v,
        None => return Err(DenoRuntimeError::DecodeMalformed),
    };
    let after_colon = skip_ws(buf, idx);
    if kind == 0 {
        if bytes_at(buf, after_colon, "true".as_bytes()) {
            Ok(ParsedMessage::Done)
        } else {
            Err(DenoRuntimeError::DecodeMalformed)
        }
    } else if kind == 1 {
        Ok(ParsedMessage::Error)
    } else {
        let inner_start = skip_ws(buf, after_colon);
        if inner_start >= buf.len() || buf[inner_start] != LBRACE {
            return Err(DenoRuntimeError::DecodeMalformed);
        }
        let inner = vstd::slice::slice_subrange(buf, inner_start, buf.len());
        let diag = parse_diag_body(inner)?;
        Ok(ParsedMessage::Diag(diag))
    }
}

} // verus!
