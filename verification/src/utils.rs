//! Small helpers: bytes as text, and text with its middle hidden.

pub mod backlog;

use vstd::prelude::*;
use vstd::string::{StringExecFns, StringSliceAdditionalSpecFns};

verus! {

/// `String::push` appends one character.
pub assume_specification[ String::push ](s: &mut String, ch: char)
    ensures
        final(s)@ == old(s)@.push(ch),
;

/// The lower-case hexadecimal digit for a number below sixteen.
pub open spec fn hex_digit_char(n: int) -> char {
    if n < 10 {
        ((0x30 + n) as u8) as char
    } else {
        ((0x57 + n) as u8) as char
    }
}

/// The two hexadecimal digits of a byte, the high one first.
pub open spec fn hex_pair(b: u8) -> Seq<char> {
    seq![hex_digit_char(b as int / 16), hex_digit_char(b as int % 16)]
}

/// The bytes in hexadecimal: two lower-case digits for each.
pub open spec fn hex_text(bytes: Seq<u8>) -> Seq<char> {
    Seq::new(
        2 * bytes.len(),
        |i: int|
            if i % 2 == 0 {
                hex_digit_char(bytes[i / 2] as int / 16)
            } else {
                hex_digit_char(bytes[i / 2] as int % 16)
            },
    )
}

fn hex_digit(n: u8) -> (c: char)
    requires
        n < 16,
    ensures
        c == hex_digit_char(n as int),
{
    if n < 10 {
        (0x30 + n) as char
    } else {
        (0x57 + n) as char
    }
}

/// Writes bytes in hexadecimal, two lower-case digits for each.
pub fn bytes_to_hex(bytes: &[u8]) -> (r: String)
    ensures
        r@ == hex_text(bytes@),
{
    let n: usize = bytes.len();
    let mut r = String::new();
    let mut i: usize = 0;
    while i < n
        invariant
            n == bytes@.len(),
            i <= n,
            r@ == hex_text(bytes@.take(i as int)),
        decreases n - i,
    {
        let b: u8 = bytes[i];
        r.push(hex_digit(b / 16));
        r.push(hex_digit(b % 16));
        assert(r@ =~= hex_text(bytes@.take(i + 1)));
        i = i + 1;
    }
    assert(bytes@.take(n as int) =~= bytes@);
    r
}

/// Whether a byte is a hexadecimal digit of either case.
pub open spec fn is_hex_digit(b: u8) -> bool {
    ||| 0x30 <= b <= 0x39
    ||| 0x41 <= b <= 0x46
    ||| 0x61 <= b <= 0x66
}

pub open spec fn hex_digit_value(b: u8) -> int {
    if 0x30 <= b <= 0x39 {
        b - 0x30
    } else if 0x41 <= b <= 0x46 {
        b - 0x41 + 10
    } else {
        b - 0x61 + 10
    }
}

/// The text is cut into pieces of two bytes, the last of which may hold
/// one. The piece at `i`:
pub open spec fn hex_chunk(text: Seq<u8>, i: int) -> Seq<u8> {
    if 2 * i + 2 <= text.len() {
        text.subrange(2 * i, 2 * i + 2)
    } else {
        text.subrange(2 * i, text.len() as int)
    }
}

/// A piece that writes a byte: two hexadecimal digits, or one, or a plus
/// sign and one.
pub open spec fn is_hex_chunk(chunk: Seq<u8>) -> bool {
    ||| chunk.len() == 1 && is_hex_digit(chunk[0])
    ||| chunk.len() == 2 && is_hex_digit(chunk[0]) && is_hex_digit(chunk[1])
    ||| chunk.len() == 2 && chunk[0] == 0x2b && is_hex_digit(chunk[1])
}

/// The byte that a piece writes.
pub open spec fn hex_chunk_value(chunk: Seq<u8>) -> u8 {
    if chunk.len() == 1 {
        hex_digit_value(chunk[0]) as u8
    } else if chunk[0] == 0x2b {
        hex_digit_value(chunk[1]) as u8
    } else {
        (hex_digit_value(chunk[0]) * 16 + hex_digit_value(chunk[1])) as u8
    }
}

/// Number of pieces of a text of `len` bytes.
pub open spec fn hex_chunk_count(len: int) -> int {
    (len + 1) / 2
}

/// Whether every piece of the text writes a byte.
pub open spec fn is_hex_text(text: Seq<u8>) -> bool {
    forall|i: int| 0 <= i < hex_chunk_count(text.len() as int) ==> is_hex_chunk(#[trigger] hex_chunk(text, i))
}

/// The bytes that a text in hexadecimal writes, piece by piece.
pub open spec fn hex_bytes(text: Seq<u8>) -> Seq<u8> {
    Seq::new(hex_chunk_count(text.len() as int) as nat, |i: int| hex_chunk_value(hex_chunk(text, i)))
}

fn hex_value_of(b: u8) -> (r: Option<u8>)
    ensures
        match r {
            Some(v) => is_hex_digit(b) && v == hex_digit_value(b),
            None => !is_hex_digit(b),
        },
{
    if 0x30 <= b && b <= 0x39 {
        Some(b - 0x30)
    } else if 0x41 <= b && b <= 0x46 {
        Some(b - 0x41 + 10)
    } else if 0x61 <= b && b <= 0x66 {
        Some(b - 0x61 + 10)
    } else {
        None
    }
}

/// Reads the bytes that a text writes in hexadecimal, if every piece of it
/// writes one.
pub fn try_hex_to_bytes(hex: &str) -> (r: Option<Vec<u8>>)
    ensures
        match r {
            Some(bytes) => is_hex_text(hex.spec_bytes()) && bytes@ == hex_bytes(hex.spec_bytes()),
            None => !is_hex_text(hex.spec_bytes()),
        },
{
    let text = hex.as_bytes();
    let len: usize = text.len();
    let mut out: Vec<u8> = Vec::new();
    let mut i: usize = 0;
    while i < len
        invariant
            len == text@.len(),
            text@ == hex.spec_bytes(),
            i <= len,
            i % 2 == 0 || i == len,
            out@.len() == hex_chunk_count(i as int),
            forall|k: int| 0 <= k < out@.len() ==> is_hex_chunk(#[trigger] hex_chunk(text@, k)),
            forall|k: int| 0 <= k < out@.len() ==> out@[k] == hex_chunk_value(hex_chunk(text@, k)),
        decreases len - i,
    {
        let ghost k = (i / 2) as int;
        let first: u8 = text[i];
        if len - i == 1 {
            assert(hex_chunk(text@, k) =~= seq![first]);
            match hex_value_of(first) {
                Some(v) => {
                    out.push(v);
                },
                None => {
                    assert(!is_hex_chunk(hex_chunk(text@, k)));
                    return None;
                },
            }
            i = i + 1;
        } else {
            let second: u8 = text[i + 1];
            assert(hex_chunk(text@, k) =~= seq![first, second]);
            let low = match hex_value_of(second) {
                Some(v) => v,
                None => {
                    assert(!is_hex_chunk(hex_chunk(text@, k)));
                    return None;
                },
            };
            if first == 0x2b {
                out.push(low);
            } else {
                match hex_value_of(first) {
                    Some(high) => {
                        out.push(high * 16 + low);
                    },
                    None => {
                        assert(!is_hex_chunk(hex_chunk(text@, k)));
                        return None;
                    },
                }
            }
            i = i + 2;
        }
    }
    assert(out@ =~= hex_bytes(text@));
    Some(out)
}

/// Reads the bytes that a text writes in hexadecimal.
pub fn hex_to_bytes(hex: &str) -> (r: Vec<u8>)
    requires
        is_hex_text(hex.spec_bytes()),
    ensures
        r@ == hex_bytes(hex.spec_bytes()),
{
    match try_hex_to_bytes(hex) {
        Some(bytes) => bytes,
        None => Vec::new(),
    }
}

/// How one byte is shown: a printable ASCII character as itself, any other
/// byte as a backslash, an x and its two hexadecimal digits.
pub open spec fn repr_byte(b: u8) -> Seq<char> {
    if 32 <= b <= 126 {
        seq![b as char]
    } else {
        seq!['\\', 'x'] + hex_pair(b)
    }
}

/// How bytes are shown, one after the other.
pub open spec fn repr_text(bytes: Seq<u8>) -> Seq<char>
    decreases bytes.len(),
{
    if bytes.len() == 0 {
        Seq::empty()
    } else {
        repr_text(bytes.drop_last()) + repr_byte(bytes.last())
    }
}

/// Shows bytes as text that a terminal can print.
pub fn repr_bytes(bytes: &[u8]) -> (r: String)
    ensures
        r@ == repr_text(bytes@),
{
    let n: usize = bytes.len();
    let mut result = String::new();
    let mut i: usize = 0;
    assert(bytes@.take(0) =~= Seq::<u8>::empty());
    while i < n
        invariant
            n == bytes@.len(),
            i <= n,
            result@ == repr_text(bytes@.take(i as int)),
        decreases n - i,
    {
        let b: u8 = bytes[i];
        let ghost before = result@;
        if b >= 32 && b <= 126 {
            result.push(b as char);
            assert(result@ =~= before + repr_byte(b));
        } else {
            result.push('\\');
            result.push('x');
            result.push(hex_digit(b / 16));
            result.push(hex_digit(b % 16));
            assert(result@ =~= before + repr_byte(b));
        }
        proof {
            let next = bytes@.take(i + 1);
            assert(next.drop_last() =~= bytes@.take(i as int));
            assert(next.last() == b);
        }
        i = i + 1;
    }
    assert(bytes@.take(n as int) =~= bytes@);
    result
}

pub fn default_false() -> (r: bool)
    ensures
        !r,
{
    false
}

pub fn default_true() -> (r: bool)
    ensures
        r,
{
    true
}

/// Number of stars that stand for the hidden middle of a text of `len`
/// bytes: all but the first two, the last two and two more.
pub open spec fn hidden_length(len: int) -> nat {
    if len >= 6 {
        (len - 6) as nat
    } else {
        0
    }
}

/// A text with its middle hidden. A text of up to four bytes stays as it
/// is. Of a longer one the first two bytes and the last two stay, with
/// stars between them.
pub open spec fn sensitive_text(data: Seq<char>) -> Seq<char> {
    let bytes = vstd::utf8::encode_utf8(data);
    if bytes.len() > 4 {
        vstd::utf8::decode_utf8(bytes.take(2)) + Seq::new(
            hidden_length(bytes.len() as int),
            |i: int| '*',
        ) + vstd::utf8::decode_utf8(bytes.skip(bytes.len() - 2))
    } else {
        data
    }
}

/// Whether the first two bytes and the last two bytes of a text hold whole
/// characters, so that they can be cut off.
pub open spec fn can_hide_middle(data: Seq<char>) -> bool {
    let bytes = vstd::utf8::encode_utf8(data);
    bytes.len() > 4 ==> vstd::utf8::is_char_boundary(bytes, 2) && vstd::utf8::is_char_boundary(
        bytes,
        bytes.len() - 2,
    )
}

/// Hides the middle of a secret, so that it can be shown.
pub fn replace_sensitive_data(data: &str) -> (r: String)
    requires
        can_hide_middle(data@),
    ensures
        r@ == sensitive_text(data@),
{
    broadcast use vstd::utf8::encode_utf8_decode_utf8;

    let len: usize = data.as_bytes().len();
    if len > 4 {
        let (head, _) = data.split_at(2);
        let (_, tail) = data.split_at(len - 2);
        let mut result = String::from_str(head);
        let stars: usize = if len >= 6 {
            len - 6
        } else {
            0
        };
        let ghost start = result@;
        let mut i: usize = 0;
        while i < stars
            invariant
                i <= stars,
                result@ == start + Seq::new(i as nat, |j: int| '*'),
            decreases stars - i,
        {
            result.push('*');
            assert(result@ =~= start + Seq::new((i + 1) as nat, |j: int| '*'));
            i = i + 1;
        }
        result.append(tail);
        proof {
            let bytes = data.spec_bytes();
            assert(bytes.subrange(0, 2) =~= bytes.take(2));
            assert(bytes.subrange(len - 2, bytes.len() as int) =~= bytes.skip(len - 2));
            assert(vstd::utf8::decode_utf8(head.spec_bytes()) == head@);
            assert(vstd::utf8::decode_utf8(tail.spec_bytes()) == tail@);
        }
        return result;
    }
    String::from_str(data)
}

} // verus!
