//! Socket addresses as plain values, and the text forms of IP addresses.

use vstd::prelude::*;

verus! {

/// An IP address: the four octets of an IPv4 address, or the eight 16-bit
/// groups of an IPv6 address, first to last as they are written.
#[derive(Debug, Clone, Copy, PartialEq, Eq, Structural)]
pub enum IpAddress {
    V4(u8, u8, u8, u8),
    V6(u16, u16, u16, u16, u16, u16, u16, u16),
}

/// An IP address with a port.
#[derive(Debug, Clone, Copy, PartialEq, Eq, Structural)]
pub struct SocketAddress {
    pub ip: IpAddress,
    pub port: u16,
}

impl IpAddress {
    /// The octets of an IPv4 address; empty for an IPv6 address.
    pub open spec fn octets(self) -> Seq<u8> {
        match self {
            IpAddress::V4(a, b, c, d) => seq![a, b, c, d],
            _ => Seq::empty(),
        }
    }

    /// The groups of an IPv6 address; empty for an IPv4 address.
    pub open spec fn groups(self) -> Seq<u16> {
        match self {
            IpAddress::V6(a, b, c, d, e, f, g, h) => seq![a, b, c, d, e, f, g, h],
            _ => Seq::empty(),
        }
    }

    pub fn is_ipv4(&self) -> (r: bool)
        ensures
            r == (*self is V4),
    {
        match self {
            IpAddress::V4(..) => true,
            _ => false,
        }
    }

    pub fn is_ipv6(&self) -> (r: bool)
        ensures
            r == (*self is V6),
    {
        match self {
            IpAddress::V6(..) => true,
            _ => false,
        }
    }
}

impl SocketAddress {
    pub fn new(ip: IpAddress, port: u16) -> (r: SocketAddress)
        ensures
            r == (SocketAddress { ip, port }),
    {
        SocketAddress { ip, port }
    }

    pub fn ip(&self) -> (r: IpAddress)
        ensures
            r == self.ip,
    {
        self.ip
    }

    pub fn port(&self) -> (r: u16)
        ensures
            r == self.port,
    {
        self.port
    }
}

pub const CHAR_DOT: u8 = 0x2e;

pub const CHAR_COLON: u8 = 0x3a;

pub const CHAR_PLUS: u8 = 0x2b;

pub const CHAR_ZERO: u8 = 0x30;

/// The IPv6 address with the given groups.
pub open spec fn ipv6_of(groups: Seq<u16>) -> IpAddress {
    IpAddress::V6(
        groups[0],
        groups[1],
        groups[2],
        groups[3],
        groups[4],
        groups[5],
        groups[6],
        groups[7],
    )
}

// ---------------------------------------------------------------------
// Fields between separators
// ---------------------------------------------------------------------
/// Index of the first `sep` in `s`, or the length of `s` where it has none.
pub open spec fn first_sep(s: Seq<u8>, sep: u8) -> int
    decreases s.len(),
{
    if s.len() == 0 || s[0] == sep {
        0
    } else {
        1 + first_sep(s.drop_first(), sep)
    }
}

/// The fields of `s` between the occurrences of `sep`: one more than there
/// are separators, empty fields included.
pub open spec fn split_fields(s: Seq<u8>, sep: u8) -> Seq<Seq<u8>>
    decreases s.len(),
{
    let k = first_sep(s, sep);
    if 0 <= k < s.len() {
        seq![s.take(k)] + split_fields(s.skip(k + 1), sep)
    } else {
        seq![s]
    }
}

/// `first_sep` is the index `k` before which no separator stands and at
/// which one stands, or the text ends.
pub proof fn lemma_first_sep(s: Seq<u8>, sep: u8, k: int)
    requires
        0 <= k <= s.len(),
        forall|j: int| 0 <= j < k ==> s[j] != sep,
        k == s.len() || s[k] == sep,
    ensures
        first_sep(s, sep) == k,
    decreases k,
{
    if k > 0 {
        let rest = s.drop_first();
        assert forall|j: int| 0 <= j < k - 1 implies rest[j] != sep by {
            assert(rest[j] == s[j + 1]);
        }
        lemma_first_sep(rest, sep, k - 1);
    }
}

/// Splits `data` at every `sep`.
pub fn split_on<'a>(data: &'a [u8], sep: u8) -> (fields: Vec<&'a [u8]>)
    ensures
        fields@.len() == split_fields(data@, sep).len(),
        fields@.len() >= 1,
        forall|i: int| 0 <= i < fields@.len() ==> (#[trigger] fields@[i])@ == split_fields(data@, sep)[i],
{
    let len: usize = data.len();
    let mut fields: Vec<&'a [u8]> = Vec::new();
    let mut start: usize = 0;
    let mut i: usize = 0;
    assert(data@.skip(0) =~= data@);
    while i < len
        invariant
            len == data@.len(),
            start <= i <= len,
            forall|j: int| start <= j < i ==> data@[j] != sep,
            split_fields(data@, sep) =~= Seq::new(fields@.len(), |j: int| fields@[j]@) + split_fields(
                data@.skip(start as int),
                sep,
            ),
        decreases len - i,
    {
        if data[i] == sep {
            let field = vstd::slice::slice_subrange(data, start, i);
            proof {
                let rest = data@.skip(start as int);
                assert forall|j: int| 0 <= j < i - start implies rest[j] != sep by {
                    assert(rest[j] == data@[start + j]);
                }
                lemma_first_sep(rest, sep, i - start);
                assert(rest.take(i - start) =~= data@.subrange(start as int, i as int));
                assert(rest.skip(i - start + 1) =~= data@.skip(i + 1));
            }
            let ghost before = Seq::new(fields@.len(), |j: int| fields@[j]@);
            fields.push(field);
            assert(Seq::new(fields@.len(), |j: int| fields@[j]@) =~= before + seq![field@]);
            start = i + 1;
        }
        i = i + 1;
    }
    let field = vstd::slice::slice_subrange(data, start, len);
    proof {
        let rest = data@.skip(start as int);
        assert forall|j: int| 0 <= j < len - start implies rest[j] != sep by {
            assert(rest[j] == data@[start + j]);
        }
        lemma_first_sep(rest, sep, len - start);
        assert(rest =~= data@.subrange(start as int, len as int));
    }
    let ghost before = Seq::new(fields@.len(), |j: int| fields@[j]@);
    fields.push(field);
    assert(Seq::new(fields@.len(), |j: int| fields@[j]@) =~= before + seq![field@]);
    fields
}

// ---------------------------------------------------------------------
// Numbers
// ---------------------------------------------------------------------
pub open spec fn is_digit(b: u8) -> bool {
    0x30 <= b <= 0x39
}

pub open spec fn all_digits(s: Seq<u8>) -> bool {
    forall|i: int| 0 <= i < s.len() ==> is_digit(#[trigger] s[i])
}

/// The number that the decimal digits of `s` write.
pub open spec fn decimal_value(s: Seq<u8>) -> nat
    decreases s.len(),
{
    if s.len() == 0 {
        0
    } else {
        decimal_value(s.drop_last()) * 10 + (s.last() - 0x30) as nat
    }
}

/// An octet of a dotted address: one to three digits, at most 255, and no
/// zero in front of another digit.
pub open spec fn is_octet_text(s: Seq<u8>) -> bool {
    &&& 1 <= s.len() <= 3
    &&& all_digits(s)
    &&& (s.len() > 1 ==> s[0] != 0x30)
    &&& decimal_value(s) <= 255
}

/// The digits of a port number: the text without a plus sign in front.
pub open spec fn unsigned_digits(s: Seq<u8>) -> Seq<u8> {
    if s.len() > 0 && s[0] == CHAR_PLUS {
        s.skip(1)
    } else {
        s
    }
}

/// The 16-bit number that `s` writes in decimal: digits, at least one, with
/// or without a plus sign in front, and a value that fits.
pub open spec fn parse_u16_spec(s: Seq<u8>) -> Option<u16> {
    let digits = unsigned_digits(s);
    if digits.len() >= 1 && all_digits(digits) && decimal_value(digits) <= 0xffff {
        Some(decimal_value(digits) as u16)
    } else {
        None
    }
}

pub open spec fn is_hex_digit(b: u8) -> bool {
    ||| 0x30 <= b <= 0x39
    ||| 0x41 <= b <= 0x46
    ||| 0x61 <= b <= 0x66
}

pub open spec fn hex_digit_value(b: u8) -> nat {
    if 0x30 <= b <= 0x39 {
        (b - 0x30) as nat
    } else if 0x41 <= b <= 0x46 {
        (b - 0x41 + 10) as nat
    } else {
        (b - 0x61 + 10) as nat
    }
}

/// The number that the hexadecimal digits of `s` write.
pub open spec fn hex_value(s: Seq<u8>) -> nat
    decreases s.len(),
{
    if s.len() == 0 {
        0
    } else {
        hex_value(s.drop_last()) * 16 + hex_digit_value(s.last())
    }
}

/// A group of an IPv6 address: one to four hexadecimal digits.
pub open spec fn is_hex_group(s: Seq<u8>) -> bool {
    &&& 1 <= s.len() <= 4
    &&& forall|i: int| 0 <= i < s.len() ==> is_hex_digit(#[trigger] s[i])
}

/// Parses a decimal 16-bit number, as a port is written.
pub fn parse_u16(text: &[u8]) -> (r: Option<u16>)
    ensures
        r == parse_u16_spec(text@),
{
    let len: usize = text.len();
    let start: usize = if len > 0 && text[0] == CHAR_PLUS {
        1
    } else {
        0
    };
    if start == len {
        return None;
    }
    let ghost digits = unsigned_digits(text@);
    assert(digits =~= text@.skip(start as int));
    let mut value: u32 = 0;
    let mut too_large: bool = false;
    let mut i: usize = start;
    assert(digits.take(0) =~= Seq::<u8>::empty());
    while i < len
        invariant
            len == text@.len(),
            start <= i <= len,
            digits == text@.skip(start as int),
            digits == unsigned_digits(text@),
            forall|j: int| 0 <= j < i - start ==> is_digit(#[trigger] digits[j]),
            !too_large ==> value == decimal_value(digits.take(i - start)) && value <= 0xffff,
            too_large ==> decimal_value(digits.take(i - start)) > 0xffff,
        decreases len - i,
    {
        let b: u8 = text[i];
        assert(digits[i - start] == b);
        if b < 0x30 || b > 0x39 {
            assert(!is_digit(digits[i - start]));
            return None;
        }
        proof {
            let next = digits.take(i - start + 1);
            assert(next.drop_last() =~= digits.take(i - start));
            assert(next.last() == b);
        }
        if !too_large {
            value = value * 10 + (b - 0x30) as u32;
            if value > 0xffff {
                too_large = true;
            }
        }
        i = i + 1;
    }
    assert(digits.take(len - start) =~= digits);
    if too_large {
        None
    } else {
        Some(value as u16)
    }
}

/// The octet that `s` writes, where it is the text of one.
pub open spec fn parse_octet_spec(s: Seq<u8>) -> Option<u8> {
    if is_octet_text(s) {
        Some(decimal_value(s) as u8)
    } else {
        None
    }
}

fn parse_octet(text: &[u8]) -> (r: Option<u8>)
    ensures
        r == parse_octet_spec(text@),
{
    let len: usize = text.len();
    if len < 1 || len > 3 {
        return None;
    }
    if len > 1 && text[0] == CHAR_ZERO {
        return None;
    }
    let mut value: u16 = 0;
    let mut i: usize = 0;
    assert(text@.take(0) =~= Seq::<u8>::empty());
    while i < len
        invariant
            len == text@.len(),
            len <= 3,
            i <= len,
            forall|j: int| 0 <= j < i ==> is_digit(#[trigger] text@[j]),
            value == decimal_value(text@.take(i as int)),
            i == 0 ==> value == 0,
            i == 1 ==> value <= 9,
            i == 2 ==> value <= 99,
            i == 3 ==> value <= 999,
        decreases len - i,
    {
        let b: u8 = text[i];
        if b < 0x30 || b > 0x39 {
            return None;
        }
        proof {
            let next = text@.take(i + 1);
            assert(next.drop_last() =~= text@.take(i as int));
            assert(next.last() == b);
        }
        value = value * 10 + (b - 0x30) as u16;
        i = i + 1;
    }
    assert(text@.take(len as int) =~= text@);
    if value > 255 {
        None
    } else {
        Some(value as u8)
    }
}

/// The group that `s` writes, where it is the text of one.
pub open spec fn parse_hex_group_spec(s: Seq<u8>) -> Option<u16> {
    if is_hex_group(s) {
        Some(hex_value(s) as u16)
    } else {
        None
    }
}

fn parse_hex_group(text: &[u8]) -> (r: Option<u16>)
    ensures
        r == parse_hex_group_spec(text@),
{
    let len: usize = text.len();
    if len < 1 || len > 4 {
        return None;
    }
    let mut value: u32 = 0;
    let mut i: usize = 0;
    assert(text@.take(0) =~= Seq::<u8>::empty());
    while i < len
        invariant
            len == text@.len(),
            len <= 4,
            i <= len,
            forall|j: int| 0 <= j < i ==> is_hex_digit(#[trigger] text@[j]),
            value == hex_value(text@.take(i as int)),
            i == 0 ==> value == 0,
            i == 1 ==> value <= 0xf,
            i == 2 ==> value <= 0xff,
            i == 3 ==> value <= 0xfff,
            i == 4 ==> value <= 0xffff,
        decreases len - i,
    {
        let b: u8 = text[i];
        let digit: u32 = if 0x30 <= b && b <= 0x39 {
            (b - 0x30) as u32
        } else if 0x41 <= b && b <= 0x46 {
            (b - 0x41 + 10) as u32
        } else if 0x61 <= b && b <= 0x66 {
            (b - 0x61 + 10) as u32
        } else {
            return None;
        };
        proof {
            let next = text@.take(i + 1);
            assert(next.drop_last() =~= text@.take(i as int));
            assert(next.last() == b);
        }
        value = value * 16 + digit;
        i = i + 1;
    }
    assert(text@.take(len as int) =~= text@);
    Some(value as u16)
}

// ---------------------------------------------------------------------
// IPv4 text
// ---------------------------------------------------------------------
/// The IPv4 address that `s` writes: four octets with dots between them.
pub open spec fn parse_ipv4_spec(s: Seq<u8>) -> Option<IpAddress> {
    let fields = split_fields(s, CHAR_DOT);
    if fields.len() == 4 && is_octet_text(fields[0]) && is_octet_text(fields[1]) && is_octet_text(
        fields[2],
    ) && is_octet_text(fields[3]) {
        Some(
            IpAddress::V4(
                decimal_value(fields[0]) as u8,
                decimal_value(fields[1]) as u8,
                decimal_value(fields[2]) as u8,
                decimal_value(fields[3]) as u8,
            ),
        )
    } else {
        None
    }
}

/// Parses an IPv4 address in dotted form.
pub fn parse_ipv4(text: &[u8]) -> (r: Option<IpAddress>)
    ensures
        r == parse_ipv4_spec(text@),
        r matches Some(ip) ==> ip is V4,
{
    let fields = split_on(text, CHAR_DOT);
    if fields.len() != 4 {
        return None;
    }
    let a = match parse_octet(fields[0]) {
        Some(v) => v,
        None => {
            return None;
        },
    };
    let b = match parse_octet(fields[1]) {
        Some(v) => v,
        None => {
            return None;
        },
    };
    let c = match parse_octet(fields[2]) {
        Some(v) => v,
        None => {
            return None;
        },
    };
    let d = match parse_octet(fields[3]) {
        Some(v) => v,
        None => {
            return None;
        },
    };
    Some(IpAddress::V4(a, b, c, d))
}

// ---------------------------------------------------------------------
// IPv6 text
// ---------------------------------------------------------------------
/// Index of the first "::" in `s`, or the length of `s` where it has none.
pub open spec fn double_colon_at(s: Seq<u8>) -> int
    decreases s.len(),
{
    if s.len() < 2 {
        s.len() as int
    } else if s[0] == CHAR_COLON && s[1] == CHAR_COLON {
        0
    } else {
        1 + double_colon_at(s.drop_first())
    }
}

/// The groups that the fields write, where each is the text of one.
pub open spec fn hex_groups_of(fields: Seq<Seq<u8>>) -> Option<Seq<u16>> {
    if forall|i: int| 0 <= i < fields.len() ==> is_hex_group(#[trigger] fields[i]) {
        Some(Seq::new(fields.len(), |i: int| hex_value(fields[i]) as u16))
    } else {
        None
    }
}

/// The groups of the part of an address in front of "::": groups with
/// colons between them, or nothing.
pub open spec fn head_groups(s: Seq<u8>) -> Option<Seq<u16>> {
    if s.len() == 0 {
        Some(Seq::empty())
    } else {
        hex_groups_of(split_fields(s, CHAR_COLON))
    }
}

/// The two groups that an IPv4 address fills at the end of an IPv6 address.
pub open spec fn embedded_groups(ip: IpAddress) -> Seq<u16> {
    match ip {
        IpAddress::V4(a, b, c, d) => seq![(a * 256 + b) as u16, (c * 256 + d) as u16],
        _ => Seq::empty(),
    }
}

/// The groups of the part of an address behind "::", or of a whole address
/// without "::": like `head_groups`, but the last field may be an IPv4
/// address in dotted form, which stands for two groups.
pub open spec fn tail_groups(s: Seq<u8>) -> Option<Seq<u16>> {
    if s.len() == 0 {
        Some(Seq::empty())
    } else {
        let fields = split_fields(s, CHAR_COLON);
        match parse_ipv4_spec(fields.last()) {
            Some(ip) => match hex_groups_of(fields.drop_last()) {
                Some(groups) => Some(groups + embedded_groups(ip)),
                None => None,
            },
            None => hex_groups_of(fields),
        }
    }
}

/// The IPv6 address that `s` writes. Without "::" the text holds all eight
/// groups. With "::" the groups in front of it and behind it are at most
/// seven, and zero groups fill the gap.
pub open spec fn parse_ipv6_spec(s: Seq<u8>) -> Option<IpAddress> {
    let k = double_colon_at(s);
    if k >= s.len() {
        match tail_groups(s) {
            Some(groups) => if groups.len() == 8 {
                Some(ipv6_of(groups))
            } else {
                None
            },
            None => None,
        }
    } else {
        match (head_groups(s.take(k)), tail_groups(s.skip(k + 2))) {
            (Some(head), Some(tail)) => if head.len() + tail.len() <= 7 {
                Some(
                    ipv6_of(
                        head + Seq::new((8 - head.len() - tail.len()) as nat, |i: int| 0u16) + tail,
                    ),
                )
            } else {
                None
            },
            _ => None,
        }
    }
}

/// Whether "::" begins at index `j` of `s`.
pub open spec fn double_colon_begins(s: Seq<u8>, j: int) -> bool {
    0 <= j && j + 1 < s.len() && s[j] == CHAR_COLON && s[j + 1] == CHAR_COLON
}

/// `double_colon_at` is the index `k` before which no "::" begins and at
/// which one begins, or the end of the text.
pub proof fn lemma_double_colon_at(s: Seq<u8>, k: int)
    requires
        0 <= k <= s.len(),
        forall|j: int| 0 <= j < k ==> !#[trigger] double_colon_begins(s, j),
        k == s.len() || double_colon_begins(s, k),
    ensures
        double_colon_at(s) == k,
    decreases k,
{
    if k > 0 {
        let rest = s.drop_first();
        assert(!double_colon_begins(s, 0));
        if s.len() >= 2 {
            assert forall|j: int| 0 <= j < k - 1 implies !#[trigger] double_colon_begins(rest, j) by {
                assert(!double_colon_begins(s, j + 1));
                if j + 1 < rest.len() {
                    assert(rest[j] == s[j + 1]);
                    assert(rest[j + 1] == s[j + 2]);
                }
            }
            if k < s.len() {
                assert(rest[k - 1] == s[k]);
                assert(rest[k] == s[k + 1]);
            }
            lemma_double_colon_at(rest, k - 1);
        }
    }
}

fn find_double_colon(text: &[u8]) -> (k: usize)
    ensures
        k == double_colon_at(text@),
        k <= text@.len(),
        k < text@.len() ==> k + 2 <= text@.len(),
{
    let len: usize = text.len();
    let mut i: usize = 0;
    while i < len
        invariant
            len == text@.len(),
            i <= len,
            forall|j: int| 0 <= j < i ==> !#[trigger] double_colon_begins(text@, j),
        decreases len - i,
    {
        if len - i >= 2 && text[i] == CHAR_COLON && text[i + 1] == CHAR_COLON {
            proof {
                lemma_double_colon_at(text@, i as int);
            }
            return i;
        }
        i = i + 1;
    }
    proof {
        lemma_double_colon_at(text@, len as int);
    }
    len
}

/// Parses the first `count` of the fields as groups and appends them.
fn push_hex_groups(fields: &Vec<&[u8]>, count: usize, groups: &mut Vec<u16>) -> (ok: bool)
    requires
        count <= fields@.len(),
    ensures
        ok == (hex_groups_of(Seq::new(count as nat, |i: int| fields@[i]@)) is Some),
        ok ==> final(groups)@ == old(groups)@ + hex_groups_of(
            Seq::new(count as nat, |i: int| fields@[i]@),
        )->0,
{
    let ghost texts = Seq::new(count as nat, |i: int| fields@[i]@);
    let ghost before = groups@;
    let mut i: usize = 0;
    while i < count
        invariant
            i <= count <= fields@.len(),
            texts == Seq::new(count as nat, |i: int| fields@[i]@),
            forall|j: int| 0 <= j < i ==> is_hex_group(#[trigger] texts[j]),
            groups@ == before + Seq::new(i as nat, |j: int| hex_value(texts[j]) as u16),
        decreases count - i,
    {
        match parse_hex_group(fields[i]) {
            None => {
                assert(!is_hex_group(texts[i as int]));
                return false;
            },
            Some(g) => {
                groups.push(g);
                assert(groups@ =~= before + Seq::new((i + 1) as nat, |j: int| hex_value(texts[j]) as u16));
            },
        }
        i = i + 1;
    }
    assert(hex_groups_of(texts)->0 =~= Seq::new(count as nat, |j: int| hex_value(texts[j]) as u16));
    true
}

/// Parses the groups in front of "::".
fn parse_head_groups(text: &[u8]) -> (r: Option<Vec<u16>>)
    ensures
        match head_groups(text@) {
            Some(groups) => r matches Some(v) && v@ == groups,
            None => r is None,
        },
{
    let mut groups: Vec<u16> = Vec::new();
    if text.len() == 0 {
        assert(groups@ =~= Seq::<u16>::empty());
        return Some(groups);
    }
    let fields = split_on(text, CHAR_COLON);
    assert(Seq::new(fields@.len(), |i: int| fields@[i]@) =~= split_fields(text@, CHAR_COLON));
    if push_hex_groups(&fields, fields.len(), &mut groups) {
        Some(groups)
    } else {
        None
    }
}

/// Parses the groups behind "::", or those of an address without "::".
fn parse_tail_groups(text: &[u8]) -> (r: Option<Vec<u16>>)
    ensures
        match tail_groups(text@) {
            Some(groups) => r matches Some(v) && v@ == groups,
            None => r is None,
        },
{
    let mut groups: Vec<u16> = Vec::new();
    if text.len() == 0 {
        assert(groups@ =~= Seq::<u16>::empty());
        return Some(groups);
    }
    let fields = split_on(text, CHAR_COLON);
    let ghost texts = split_fields(text@, CHAR_COLON);
    assert(Seq::new(fields@.len(), |i: int| fields@[i]@) =~= texts);
    let last: usize = fields.len() - 1;
    assert(fields@[last as int]@ == texts.last());
    match parse_ipv4(fields[last]) {
        Some(IpAddress::V4(a, b, c, d)) => {
            assert(Seq::new(last as nat, |i: int| fields@[i]@) =~= texts.drop_last());
            if !push_hex_groups(&fields, last, &mut groups) {
                return None;
            }
            let hi: u16 = (a as u16) * 256 + (b as u16);
            let lo: u16 = (c as u16) * 256 + (d as u16);
            groups.push(hi);
            groups.push(lo);
            assert(groups@ =~= hex_groups_of(texts.drop_last())->0 + embedded_groups(
                IpAddress::V4(a, b, c, d),
            ));
            Some(groups)
        },
        _ => {
            if push_hex_groups(&fields, fields.len(), &mut groups) {
                Some(groups)
            } else {
                None
            }
        },
    }
}

/// Parses an IPv6 address in its text form, with or without "::" and with
/// or without a dotted IPv4 address at its end.
pub fn parse_ipv6(text: &[u8]) -> (r: Option<IpAddress>)
    ensures
        r == parse_ipv6_spec(text@),
        r matches Some(ip) ==> ip is V6,
{
    let len: usize = text.len();
    let k: usize = find_double_colon(text);
    let mut all: Vec<u16> = Vec::new();
    if k >= len {
        match parse_tail_groups(text) {
            Some(groups) => {
                if groups.len() != 8 {
                    return None;
                }
                all = groups;
            },
            None => {
                return None;
            },
        }
    } else {
        let head = match parse_head_groups(vstd::slice::slice_subrange(text, 0, k)) {
            Some(groups) => groups,
            None => {
                assert(text@.subrange(0, k as int) =~= text@.take(k as int));
                return None;
            },
        };
        assert(text@.subrange(0, k as int) =~= text@.take(k as int));
        let tail = match parse_tail_groups(vstd::slice::slice_subrange(text, k + 2, len)) {
            Some(groups) => groups,
            None => {
                assert(text@.subrange(k + 2, len as int) =~= text@.skip(k + 2));
                return None;
            },
        };
        assert(text@.subrange(k + 2, len as int) =~= text@.skip(k + 2));
        if head.len() > 7 || tail.len() > 7 - head.len() {
            return None;
        }
        let gap: usize = 8 - head.len() - tail.len();
        let mut i: usize = 0;
        while i < head.len()
            invariant
                i <= head@.len(),
                all@ == head@.take(i as int),
            decreases head@.len() - i,
        {
            all.push(head[i]);
            assert(all@ =~= head@.take(i + 1));
            i = i + 1;
        }
        assert(head@.take(head@.len() as int) =~= head@);
        i = 0;
        while i < gap
            invariant
                i <= gap,
                all@ == head@ + Seq::new(i as nat, |j: int| 0u16),
            decreases gap - i,
        {
            all.push(0);
            assert(all@ =~= head@ + Seq::new((i + 1) as nat, |j: int| 0u16));
            i = i + 1;
        }
        i = 0;
        while i < tail.len()
            invariant
                i <= tail@.len(),
                all@ == head@ + Seq::new(gap as nat, |j: int| 0u16) + tail@.take(i as int),
            decreases tail@.len() - i,
        {
            all.push(tail[i]);
            assert(all@ =~= head@ + Seq::new(gap as nat, |j: int| 0u16) + tail@.take(i + 1));
            i = i + 1;
        }
        assert(tail@.take(tail@.len() as int) =~= tail@);
    }
    Some(IpAddress::V6(all[0], all[1], all[2], all[3], all[4], all[5], all[6], all[7]))
}

/// The address that `s` writes in either family.
pub open spec fn parse_ip_spec(s: Seq<u8>) -> Option<IpAddress> {
    match parse_ipv4_spec(s) {
        Some(ip) => Some(ip),
        None => parse_ipv6_spec(s),
    }
}

/// Parses an IP address of either family.
pub fn parse_ip(text: &[u8]) -> (r: Option<IpAddress>)
    ensures
        r == parse_ip_spec(text@),
{
    match parse_ipv4(text) {
        Some(ip) => Some(ip),
        None => parse_ipv6(text),
    }
}

} // verus!
