//! Operator text input: unsigned numbers in a given radix and space-separated
//! hexadecimal byte lists, read from the UTF-8 bytes of the text.
//!
//! The number grammar is: an optional single `+`, then one or more digits of
//! the radix (`0-9`, `a-z`, `A-Z`), nothing else. A value above the target
//! type's range is as malformed as a stray character.

use vstd::prelude::*;
use vstd::utf8::encode_utf8;
use vstd::string::StringExecFns;
use vstd::string::StringSliceAdditionalSpecFns;

verus! {

/// Value of an ASCII digit or letter as a digit, before any radix is applied.
pub open spec fn digit_of(b: u8) -> Option<nat> {
    if 0x30 <= b <= 0x39 {
        Some((b - 0x30) as nat)
    } else if 0x61 <= b <= 0x7a {
        Some((b - 0x61 + 10) as nat)
    } else if 0x41 <= b <= 0x5a {
        Some((b - 0x41 + 10) as nat)
    } else {
        None
    }
}

/// Whether `b` is a digit of the given radix.
pub open spec fn is_digit(b: u8, radix: nat) -> bool {
    match digit_of(b) {
        Some(d) => d < radix,
        None => false,
    }
}

/// Whether every byte of `digits` is a digit of the given radix.
pub open spec fn all_digits(digits: Seq<u8>, radix: nat) -> bool {
    forall|i: int| 0 <= i < digits.len() ==> is_digit(#[trigger] digits[i], radix)
}

/// Positional value of a digit string, most significant digit first.
pub open spec fn digits_value(digits: Seq<u8>, radix: nat) -> nat
    decreases digits.len(),
{
    if digits.len() == 0 {
        0
    } else {
        digits_value(digits.drop_last(), radix) * radix + digit_of(digits.last()).unwrap()
    }
}

/// The text without its leading `+`, if it has one.
pub open spec fn unsigned_digits(text: Seq<u8>) -> Seq<u8> {
    if text.len() > 0 && text[0] == 0x2b {
        text.subrange(1, text.len() as int)
    } else {
        text
    }
}

/// The number that `text` denotes in the given radix, if it is well formed and
/// not above `max`.
pub open spec fn parse_number(text: Seq<u8>, radix: nat, max: u32) -> Option<u32> {
    let digits = unsigned_digits(text);
    if digits.len() > 0 && all_digits(digits, radix) && digits_value(digits, radix) <= max {
        Some(digits_value(digits, radix) as u32)
    } else {
        None
    }
}

/// Hexadecimal text as a 32-bit value.
pub open spec fn hex_u32(text: Seq<char>) -> Option<u32> {
    parse_number(encode_utf8(text), 16, u32::MAX)
}

/// Decimal text as a 32-bit value.
pub open spec fn decimal_u32(text: Seq<char>) -> Option<u32> {
    parse_number(encode_utf8(text), 10, u32::MAX)
}

/// Hexadecimal text as a single byte.
pub open spec fn hex_u8(text: Seq<u8>) -> Option<u8> {
    match parse_number(text, 16, 0xff) {
        Some(v) => Some(v as u8),
        None => None,
    }
}

/// A prefix of a digit string is worth no more than the whole string.
proof fn lemma_prefix_value_le(digits: Seq<u8>, radix: nat, k: int)
    requires
        radix >= 1,
        0 <= k <= digits.len(),
    ensures
        digits_value(digits.subrange(0, k), radix) <= digits_value(digits, radix),
    decreases digits.len() - k,
{
    if k == digits.len() {
        assert(digits.subrange(0, k) =~= digits);
    } else {
        lemma_prefix_value_le(digits, radix, k + 1);
        let longer = digits.subrange(0, k + 1);
        assert(longer.drop_last() =~= digits.subrange(0, k));
        let shorter_value = digits_value(digits.subrange(0, k), radix);
        assert(shorter_value * radix >= shorter_value) by (nonlinear_arith)
            requires
                radix >= 1,
                shorter_value >= 0,
        ;
    }
}

fn digit_value(b: u8) -> (d: Option<u32>)
    ensures
        match d {
            Some(v) => digit_of(b) == Some(v as nat) && v < 36,
            None => digit_of(b) is None,
        },
{
    if 0x30 <= b && b <= 0x39 {
        Some((b - 0x30) as u32)
    } else if 0x61 <= b && b <= 0x7a {
        Some((b - 0x61) as u32 + 10)
    } else if 0x41 <= b && b <= 0x5a {
        Some((b - 0x41) as u32 + 10)
    } else {
        None
    }
}

/// Reads an unsigned number in the given radix, accepting values up to `max`.
pub fn parse_unsigned(text: &[u8], radix: u32, max: u32) -> (value: Option<u32>)
    requires
        2 <= radix <= 36,
    ensures
        value == parse_number(text@, radix as nat, max),
{
    let start: usize = if text.len() > 0 && text[0] == 0x2b { 1 } else { 0 };
    let ghost digits = unsigned_digits(text@);
    assert(digits =~= text@.subrange(start as int, text@.len() as int));
    if start == text.len() {
        return None;
    }
    let mut acc: u64 = 0;
    let mut i: usize = start;
    while i < text.len()
        invariant
            2 <= radix <= 36,
            start <= i <= text@.len(),
            digits == unsigned_digits(text@),
            digits == text@.subrange(start as int, text@.len() as int),
            all_digits(digits.subrange(0, i - start), radix as nat),
            acc == digits_value(digits.subrange(0, i - start), radix as nat),
            acc <= max,
        decreases text@.len() - i,
    {
        let ghost seen = digits.subrange(0, i - start);
        let ghost next = digits.subrange(0, i - start + 1);
        proof {
            assert(next.drop_last() =~= seen);
            assert(next.last() == text@[i as int]);
            assert(digits[i - start] == text@[i as int]);
        }
        let d: u32 = match digit_value(text[i]) {
            Some(d) => d,
            None => {
                assert(!is_digit(digits[i - start], radix as nat));
                return None;
            },
        };
        if d >= radix {
            assert(!is_digit(digits[i - start], radix as nat));
            return None;
        }
        assert(acc * radix + d <= u32::MAX * 36 + 35) by (nonlinear_arith)
            requires
                acc <= u32::MAX,
                radix <= 36,
                d <= 35,
        ;
        let widened: u64 = acc * (radix as u64) + (d as u64);
        assert(widened == digits_value(next, radix as nat));
        if widened > max as u64 {
            proof {
                lemma_prefix_value_le(digits, radix as nat, i - start + 1);
            }
            return None;
        }
        assert forall|j: int| 0 <= j < next.len() implies is_digit(
            #[trigger] next[j],
            radix as nat,
        ) by {
            if j < seen.len() {
                assert(next[j] == seen[j]);
            }
        }
        acc = widened;
        i += 1;
    }
    assert(digits.subrange(0, i - start) =~= digits);
    Some(acc as u32)
}

/// Reads hexadecimal text as a 32-bit value.
pub fn parse_hex_u32(text: &str) -> (value: Option<u32>)
    ensures
        value == hex_u32(text@),
{
    parse_unsigned(text.as_bytes(), 16, u32::MAX)
}

/// Reads decimal text as a 32-bit value.
pub fn parse_decimal_u32(text: &str) -> (value: Option<u32>)
    ensures
        value == decimal_u32(text@),
{
    parse_unsigned(text.as_bytes(), 10, u32::MAX)
}

/// Length of the first token of `text`: the bytes before its first space.
pub open spec fn token_len(text: Seq<u8>) -> nat
    decreases text.len(),
{
    if text.len() == 0 || text[0] == 0x20 {
        0
    } else {
        1 + token_len(text.drop_first())
    }
}

/// The bytes that a space-separated list of hexadecimal tokens denotes. Tokens
/// are separated by exactly one space each; an empty token, as a doubled, a
/// leading or a trailing space leaves one, makes the whole list malformed.
pub open spec fn byte_list(text: Seq<u8>) -> Option<Seq<u8>>
    decreases text.len(),
{
    let k: int = token_len(text) as int;
    match hex_u8(text.subrange(0, k)) {
        None => None,
        Some(b) => if k >= text.len() {
            Some(seq![b])
        } else {
            match byte_list(text.subrange(k + 1, text.len() as int)) {
                None => None,
                Some(rest) => Some(seq![b] + rest),
            }
        },
    }
}

/// What a payload text field holds.
#[derive(Debug, PartialEq, Eq)]
pub enum PayloadText {
    /// Some token is not a hexadecimal byte.
    Invalid,
    /// Every token is a byte, but there are more than eight.
    TooBig,
    /// One to eight bytes.
    Bytes(Vec<u8>),
}

impl PayloadText {
    /// Whether this is the reading of `text`.
    pub open spec fn reads(self, text: Seq<u8>) -> bool {
        match self {
            PayloadText::Invalid => byte_list(text) is None,
            PayloadText::TooBig => byte_list(text) is Some && byte_list(text).unwrap().len() > 8,
            PayloadText::Bytes(bytes) => byte_list(text) == Some(bytes@) && 1 <= bytes@.len() <= 8,
        }
    }
}

/// `parsed` followed by what the rest of the text denotes.
spec fn followed_by(parsed: Seq<u8>, rest: Option<Seq<u8>>) -> Option<Seq<u8>> {
    match rest {
        None => None,
        Some(more) => Some(parsed + more),
    }
}

proof fn lemma_token_len(text: Seq<u8>, k: int)
    requires
        0 <= k <= text.len(),
        forall|j: int| 0 <= j < k ==> text[j] != 0x20,
        k == text.len() || text[k] == 0x20,
    ensures
        token_len(text) == k,
    decreases k,
{
    if k > 0 {
        let rest = text.drop_first();
        assert forall|j: int| 0 <= j < k - 1 implies rest[j] != 0x20 by {
            assert(rest[j] == text[j + 1]);
        }
        lemma_token_len(rest, k - 1);
    }
}

/// A well-formed list has at least one byte.
pub proof fn lemma_byte_list_nonempty(text: Seq<u8>)
    ensures
        byte_list(text) is Some ==> byte_list(text).unwrap().len() >= 1,
{
}

/// Reads a space-separated list of hexadecimal bytes.
pub fn parse_byte_list(text: &[u8]) -> (list: Option<Vec<u8>>)
    ensures
        match list {
            Some(bytes) => byte_list(text@) == Some(bytes@),
            None => byte_list(text@) is None,
        },
{
    let len: usize = text.len();
    let mut out: Vec<u8> = Vec::new();
    let mut pos: usize = 0;
    let mut done = false;
    assert(text@.subrange(0, len as int) =~= text@);
    assert(Seq::<u8>::empty() + byte_list(text@).unwrap() =~= byte_list(text@).unwrap());
    while !done
        invariant
            len == text@.len(),
            pos <= len,
            !done ==> byte_list(text@) == followed_by(
                out@,
                byte_list(text@.subrange(pos as int, len as int)),
            ),
            done ==> byte_list(text@) == Some(out@),
        decreases len - pos + (if done { 0int } else { 1int }),
    {
        let ghost rest = text@.subrange(pos as int, len as int);
        let mut end: usize = pos;
        while end < len && text[end] != 0x20
            invariant
                len == text@.len(),
                pos <= end <= len,
                forall|j: int| pos <= j < end ==> text@[j] != 0x20,
            decreases len - end,
        {
            end += 1;
        }
        proof {
            assert forall|j: int| 0 <= j < end - pos implies rest[j] != 0x20 by {
                assert(rest[j] == text@[pos + j]);
            }
            lemma_token_len(rest, end - pos);
            assert(rest.subrange(0, end - pos) =~= text@.subrange(pos as int, end as int));
        }
        let token = vstd::slice::slice_subrange(text, pos, end);
        match parse_unsigned(token, 16, 0xff) {
            None => {
                return None;
            },
            Some(v) => {
                let ghost before = out@;
                out.push(v as u8);
                if end == len {
                    assert(before + seq![v as u8] =~= out@);
                    done = true;
                } else {
                    proof {
                        let tail = byte_list(text@.subrange(end + 1, len as int));
                        assert(rest.subrange(end - pos + 1, rest.len() as int) =~= text@.subrange(
                            end + 1,
                            len as int,
                        ));
                        if tail is Some {
                            assert(before + (seq![v as u8] + tail.unwrap()) =~= out@
                                + tail.unwrap());
                        }
                    }
                    pos = end + 1;
                }
            },
        }
    }
    Some(out)
}

/// Reads a payload text field.
pub fn parse_payload(text: &str) -> (payload: PayloadText)
    ensures
        payload.reads(encode_utf8(text@)),
{
    match parse_byte_list(text.as_bytes()) {
        None => PayloadText::Invalid,
        Some(bytes) => {
            proof {
                lemma_byte_list_nonempty(encode_utf8(text@));
            }
            if bytes.len() > 8 {
                PayloadText::TooBig
            } else {
                PayloadText::Bytes(bytes)
            }
        },
    }
}


/// The character for bit `k` of `b`, counting from the most significant.
pub open spec fn bit_char(b: u8, k: u8) -> char {
    if b & (0x80u8 >> k) != 0 {
        '1'
    } else {
        '0'
    }
}

/// The eight bits of `b`, most significant first, and a space after them.
pub open spec fn byte_bits(b: u8) -> Seq<char> {
    Seq::new(8, |k: int| bit_char(b, k as u8)).push(' ')
}

/// The bits of each byte in turn, nine characters per byte.
pub open spec fn bits_text(bytes: Seq<u8>) -> Seq<char>
    decreases bytes.len(),
{
    if bytes.len() == 0 {
        Seq::empty()
    } else {
        bits_text(bytes.drop_last()) + byte_bits(bytes.last())
    }
}

/// Renders bytes in binary, each as eight digits followed by a space.
pub fn binary_text(bytes: &[u8]) -> (text: String)
    ensures
        text@ == bits_text(bytes@),
{
    let mut text = String::new();
    let mut i: usize = 0;
    while i < bytes.len()
        invariant
            i <= bytes@.len(),
            text@ == bits_text(bytes@.subrange(0, i as int)),
        decreases bytes@.len() - i,
    {
        let b: u8 = bytes[i];
        let ghost before = text@;
        let mut k: u8 = 0;
        while k < 8
            invariant
                k <= 8,
                text@ == before + Seq::new(k as nat, |j: int| bit_char(b, j as u8)),
            decreases 8 - k,
        {
            let ghost so_far = text@;
            proof {
                reveal_strlit("1");
                reveal_strlit("0");
            }
            if b & (0x80u8 >> k) != 0 {
                text.append("1");
            } else {
                text.append("0");
            }
            assert(text@ =~= so_far.push(bit_char(b, k)));
            assert(text@ =~= before + Seq::new((k + 1) as nat, |j: int| bit_char(b, j as u8)));
            k += 1;
        }
        proof {
            reveal_strlit(" ");
        }
        text.append(" ");
        proof {
            let next = bytes@.subrange(0, i + 1);
            assert(next.drop_last() =~= bytes@.subrange(0, i as int));
            assert(next.last() == b);
            assert(text@ =~= before + byte_bits(b));
        }
        i += 1;
    }
    assert(bytes@.subrange(0, i as int) =~= bytes@);
    text
}

/// The upper-case hexadecimal digit for `d`.
pub open spec fn hex_digit(d: nat) -> char {
    if d < 10 {
        (0x30 + d) as u8 as char
    } else {
        (0x41 + d - 10) as u8 as char
    }
}

/// `value` in upper-case hexadecimal, padded with zeros on the left to at
/// least `width` digits.
pub open spec fn hex_digits(value: nat, width: nat) -> Seq<char>
    decreases value + width,
{
    if value < 16 && width <= 1 {
        seq![hex_digit(value)]
    } else {
        hex_digits(
            value / 16,
            if width > 0 {
                (width - 1) as nat
            } else {
                0
            },
        ).push(hex_digit(value % 16))
    }
}

fn hex_digit_text(d: u32) -> (text: &'static str)
    requires
        d < 16,
    ensures
        text@ == seq![hex_digit(d as nat)],
{
    proof {
        reveal_strlit("0");
        reveal_strlit("1");
        reveal_strlit("2");
        reveal_strlit("3");
        reveal_strlit("4");
        reveal_strlit("5");
        reveal_strlit("6");
        reveal_strlit("7");
        reveal_strlit("8");
        reveal_strlit("9");
        reveal_strlit("A");
        reveal_strlit("B");
        reveal_strlit("C");
        reveal_strlit("D");
        reveal_strlit("E");
        reveal_strlit("F");
    }
    let text = match d {
        0 => "0",
        1 => "1",
        2 => "2",
        3 => "3",
        4 => "4",
        5 => "5",
        6 => "6",
        7 => "7",
        8 => "8",
        9 => "9",
        10 => "A",
        11 => "B",
        12 => "C",
        13 => "D",
        14 => "E",
        _ => "F",
    };
    assert(text@ =~= seq![hex_digit(d as nat)]);
    text
}

/// Renders `value` in upper-case hexadecimal with at least `width` digits.
pub fn hex_text(value: u32, width: usize) -> (text: String)
    ensures
        text@ == hex_digits(value as nat, width as nat),
{
    let mut low: Vec<u32> = Vec::new();
    let mut v: u32 = value;
    let mut w: usize = width;
    while !(v < 16 && w <= 1)
        invariant
            forall|i: int| 0 <= i < low@.len() ==> #[trigger] low@[i] < 16,
            hex_digits(value as nat, width as nat) == hex_digits(v as nat, w as nat) + Seq::new(
                low@.len(),
                |i: int| hex_digit(low@[low@.len() - 1 - i] as nat),
            ),
        decreases v + w,
    {
        let ghost tail = Seq::new(low@.len(), |i: int| hex_digit(low@[low@.len() - 1 - i] as nat));
        let ghost head = hex_digits((v / 16) as nat, (if w > 0 { w - 1 } else { 0 }) as nat);
        low.push(v % 16);
        proof {
            let longer = Seq::new(low@.len(), |i: int| hex_digit(low@[low@.len() - 1 - i] as nat));
            assert(head.push(hex_digit((v % 16) as nat)) + tail =~= head + longer);
        }
        v = v / 16;
        w = if w > 0 { w - 1 } else { 0 };
    }
    let mut text = String::new();
    text.append(hex_digit_text(v));
    let mut n: usize = low.len();
    while n > 0
        invariant
            n <= low@.len(),
            forall|i: int| 0 <= i < low@.len() ==> #[trigger] low@[i] < 16,
            text@ == seq![hex_digit(v as nat)] + Seq::new(
                (low@.len() - n) as nat,
                |i: int| hex_digit(low@[low@.len() - 1 - i] as nat),
            ),
        decreases n,
    {
        let ghost before = text@;
        n -= 1;
        text.append(hex_digit_text(low[n]));
        assert(text@ =~= seq![hex_digit(v as nat)] + Seq::new(
            (low@.len() - n) as nat,
            |i: int| hex_digit(low@[low@.len() - 1 - i] as nat),
        ));
    }
    text
}


/// The digits that [`hex_digits`] writes, as the bytes of their text.
spec fn hex_bytes(value: nat, width: nat) -> Seq<u8> {
    Seq::new(hex_digits(value, width).len(), |i: int| hex_digits(value, width)[i] as u8)
}

proof fn lemma_hex_digit_is_digit(d: nat)
    requires
        d < 16,
    ensures
        '\0' <= hex_digit(d) <= '\u{7f}',
        digit_of(hex_digit(d) as u8) == Some(d),
        hex_digit(d) as u8 != 0x2b,
{
}

proof fn lemma_hex_bytes_value(value: nat, width: nat)
    ensures
        hex_digits(value, width).len() >= 1,
        vstd::utf8::is_ascii_chars(hex_digits(value, width)),
        all_digits(hex_bytes(value, width), 16),
        digits_value(hex_bytes(value, width), 16) == value,
    decreases value + width,
{
    let chars = hex_digits(value, width);
    let bytes = hex_bytes(value, width);
    if value < 16 && width <= 1 {
        lemma_hex_digit_is_digit(value);
        assert(bytes.drop_last().len() == 0);
        assert(digits_value(bytes.drop_last(), 16) == 0);
    } else {
        let shorter: nat = if width > 0 {
            (width - 1) as nat
        } else {
            0
        };
        lemma_hex_bytes_value(value / 16, shorter);
        lemma_hex_digit_is_digit(value % 16);
        assert(chars == hex_digits(value / 16, shorter).push(hex_digit(value % 16)));
        assert(bytes.drop_last() =~= hex_bytes(value / 16, shorter));
        assert(bytes.last() == hex_digit(value % 16) as u8);
        assert forall|i: int| 0 <= i < bytes.len() implies is_digit(#[trigger] bytes[i], 16) by {
            if i < bytes.len() - 1 {
                assert(bytes[i] == hex_bytes(value / 16, shorter)[i]);
            }
        }
    }
}

/// What [`hex_text`] writes reads back as the value it was written from.
pub proof fn lemma_hex_round_trip(value: u32, width: nat)
    ensures
        hex_u32(hex_digits(value as nat, width)) == Some(value),
{
    let chars = hex_digits(value as nat, width);
    lemma_hex_bytes_value(value as nat, width);
    vstd::utf8::is_ascii_chars_encode_utf8(chars);
    let bytes = encode_utf8(chars);
    assert(bytes =~= hex_bytes(value as nat, width));
    assert(is_digit(bytes[0], 16));
    assert(unsigned_digits(bytes) == bytes);
}


} // verus!
