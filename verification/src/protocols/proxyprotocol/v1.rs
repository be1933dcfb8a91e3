//! The text of a version 1 header, and the law that reading it gives back
//! what was written.

use crate::address::{
    all_digits,
    decimal_value,
    double_colon_at,
    double_colon_begins,
    hex_digit_value,
    head_groups,
    hex_groups_of,
    hex_value,
    ipv6_of,
    is_digit,
    is_hex_digit,
    is_hex_group,
    is_octet_text,
    lemma_double_colon_at,
    first_sep,
    lemma_first_sep,
    parse_ipv4_spec,
    parse_ipv6_spec,
    parse_u16_spec,
    split_fields,
    tail_groups,
    unsigned_digits,
    IpAddress,
    SocketAddress,
};
use crate::protocols::proxyprotocol::{
    ip_port_of_text,
    proxy_protocol_of,
    v1_begin,
    v1_end,
    v1_family,
    v1_of,
    v1_unknown,
    version_of,
    AddrType,
    ProxyProtocol,
    ProxyProtocolError,
    ProxyProtocolV1,
    ProxyProtocolVersion,
    SocketType,
};
use vstd::prelude::*;

verus! {

/// A number in decimal digits, without zeros in front.
pub open spec fn decimal_digits(n: nat) -> Seq<u8>
    decreases n,
{
    if n < 10 {
        seq![(0x30 + n) as u8]
    } else {
        decimal_digits(n / 10).push((0x30 + n % 10) as u8)
    }
}

/// The lower-case hexadecimal digit for a number below sixteen.
pub open spec fn hex_digit_byte(v: nat) -> u8 {
    if v < 10 {
        (0x30 + v) as u8
    } else {
        (0x57 + v) as u8
    }
}

/// A number in lower-case hexadecimal digits, without zeros in front.
pub open spec fn hex_digits(n: nat) -> Seq<u8>
    decreases n,
{
    if n < 16 {
        seq![hex_digit_byte(n)]
    } else {
        hex_digits(n / 16).push(hex_digit_byte(n % 16))
    }
}

/// An IPv4 address in dotted form.
pub open spec fn ipv4_text(a: u8, b: u8, c: u8, d: u8) -> Seq<u8> {
    decimal_digits(a as nat) + seq![0x2eu8] + (decimal_digits(b as nat) + seq![0x2eu8] + (
    decimal_digits(c as nat) + seq![0x2eu8] + decimal_digits(d as nat)))
}

/// The groups from index `i` on, in hexadecimal with colons between them.
pub open spec fn groups_text(groups: Seq<u16>, i: int) -> Seq<u8>
    decreases groups.len() - i,
{
    if i < 0 || i + 1 >= groups.len() {
        hex_digits(groups[i] as nat)
    } else {
        hex_digits(groups[i] as nat) + seq![0x3au8] + groups_text(groups, i + 1)
    }
}

/// An address as text: IPv4 in dotted form, IPv6 with all its eight groups.
pub open spec fn ip_text(ip: IpAddress) -> Seq<u8> {
    match ip {
        IpAddress::V4(a, b, c, d) => ipv4_text(a, b, c, d),
        IpAddress::V6(..) => groups_text(ip.groups(), 0),
    }
}

/// The first field of a header: the socket type and the address family.
pub open spec fn v1_tag(socket_type: SocketType, ip: IpAddress) -> Seq<u8> {
    seq![
        if socket_type == SocketType::TCP {
            0x54u8
        } else {
            0x55u8
        },
        if socket_type == SocketType::TCP {
            0x43u8
        } else {
            0x44u8
        },
        0x50u8,
        if ip is V4 {
            0x34u8
        } else {
            0x36u8
        },
    ]
}

/// The body of a header: its five fields with single spaces between them.
pub open spec fn v1_body_text(header: ProxyProtocolV1) -> Seq<u8> {
    v1_tag(header.socket_type, header.src_addr.ip) + seq![0x20u8] + (ip_text(header.src_addr.ip)
        + seq![0x20u8] + (ip_text(header.dst_addr.ip) + seq![0x20u8] + (decimal_digits(
        header.src_addr.port as nat,
    ) + seq![0x20u8] + decimal_digits(header.dst_addr.port as nat))))
}

/// A header as it is written on the wire.
pub open spec fn v1_text(header: ProxyProtocolV1) -> Seq<u8> {
    v1_begin() + v1_body_text(header) + v1_end()
}

/// Text without spaces or control bytes, in ASCII.
pub open spec fn is_token(s: Seq<u8>) -> bool {
    forall|i: int| 0 <= i < s.len() ==> 0x21 <= #[trigger] s[i] < 0x7f
}

/// Text in which a byte does not occur.
pub open spec fn lacks(s: Seq<u8>, b: u8) -> bool {
    forall|i: int| 0 <= i < s.len() ==> #[trigger] s[i] != b
}

proof fn lemma_decimal_digits(n: nat)
    ensures
        decimal_digits(n).len() >= 1,
        all_digits(decimal_digits(n)),
        decimal_value(decimal_digits(n)) == n,
        n >= 1 ==> decimal_digits(n)[0] != 0x30,
        n < 10 ==> decimal_digits(n).len() == 1,
        n < 100 ==> decimal_digits(n).len() <= 2,
        n < 1000 ==> decimal_digits(n).len() <= 3,
        n < 10000 ==> decimal_digits(n).len() <= 4,
        n < 100000 ==> decimal_digits(n).len() <= 5,
    decreases n,
{
    let d = decimal_digits(n);
    if n < 10 {
        assert(d.drop_last() =~= Seq::<u8>::empty());
        assert(decimal_value(d.drop_last()) == 0);
    } else {
        lemma_decimal_digits(n / 10);
        let front = decimal_digits(n / 10);
        assert(d.drop_last() =~= front);
        assert(d[0] == front[0]);
        assert forall|i: int| 0 <= i < d.len() implies is_digit(#[trigger] d[i]) by {
            if i < front.len() {
                assert(d[i] == front[i]);
            }
        }
    }
}

proof fn lemma_digits_are_tokens(s: Seq<u8>)
    requires
        all_digits(s),
    ensures
        is_token(s),
        lacks(s, 0x20),
        lacks(s, 0x2e),
        lacks(s, 0x3a),
{
    assert forall|i: int| 0 <= i < s.len() implies 0x30 <= #[trigger] s[i] <= 0x39 by {
        assert(is_digit(s[i]));
    }
}

proof fn lemma_hex_digits(n: nat)
    ensures
        hex_digits(n).len() >= 1,
        forall|i: int| 0 <= i < hex_digits(n).len() ==> is_hex_digit(#[trigger] hex_digits(n)[i]),
        hex_value(hex_digits(n)) == n,
        n < 0x10 ==> hex_digits(n).len() == 1,
        n < 0x100 ==> hex_digits(n).len() <= 2,
        n < 0x1000 ==> hex_digits(n).len() <= 3,
        n < 0x10000 ==> hex_digits(n).len() <= 4,
    decreases n,
{
    let d = hex_digits(n);
    if n < 16 {
        assert(d.drop_last() =~= Seq::<u8>::empty());
        assert(hex_value(d.drop_last()) == 0);
        assert(hex_digit_value(hex_digit_byte(n)) == n);
    } else {
        lemma_hex_digits(n / 16);
        let front = hex_digits(n / 16);
        assert(d.drop_last() =~= front);
        assert(hex_digit_value(hex_digit_byte(n % 16)) == n % 16);
        assert forall|i: int| 0 <= i < d.len() implies is_hex_digit(#[trigger] d[i]) by {
            if i < front.len() {
                assert(d[i] == front[i]);
            }
        }
    }
}

proof fn lemma_group_is_token(g: u16)
    ensures
        is_hex_group(hex_digits(g as nat)),
        hex_value(hex_digits(g as nat)) == g,
        is_token(hex_digits(g as nat)),
        lacks(hex_digits(g as nat), 0x20),
        lacks(hex_digits(g as nat), 0x2e),
        lacks(hex_digits(g as nat), 0x3a),
{
    lemma_hex_digits(g as nat);
    let s = hex_digits(g as nat);
    assert forall|i: int| 0 <= i < s.len() implies 0x30 <= #[trigger] s[i] <= 0x66 && s[i] != 0x3a by {
        assert(is_hex_digit(s[i]));
    }
}

/// The fields of a text that begins with a field and a separator.
proof fn lemma_split_head(a: Seq<u8>, sep: u8, rest: Seq<u8>)
    requires
        lacks(a, sep),
    ensures
        split_fields(a + seq![sep] + rest, sep) == seq![a] + split_fields(rest, sep),
{
    let s = a + seq![sep] + rest;
    let k = a.len() as int;
    assert forall|j: int| 0 <= j < k implies s[j] != sep by {
        assert(s[j] == a[j]);
    }
    assert(s[k] == sep);
    lemma_first_sep(s, sep, k);
    assert(s.take(k) =~= a);
    assert(s.skip(k + 1) =~= rest);
}

/// The one field of a text without separators.
proof fn lemma_split_last(a: Seq<u8>, sep: u8)
    requires
        lacks(a, sep),
    ensures
        split_fields(a, sep) == seq![a],
{
    lemma_first_sep(a, sep, a.len() as int);
}

/// Text in ASCII is valid UTF-8.
proof fn lemma_token_is_utf8(s: Seq<u8>)
    requires
        is_token(s),
    ensures
        vstd::utf8::valid_utf8(s),
{
    let chars = Seq::new(s.len(), |i: int| s[i] as char);
    assert(vstd::utf8::is_ascii_chars(chars)) by {
        assert forall|i: int| 0 <= i < chars.len() implies '\0' <= #[trigger] chars[i]
            <= '\u{7f}' by {
            assert(chars[i] == s[i] as char);
            assert(0x21 <= s[i] < 0x7f);
        }
    }
    vstd::utf8::is_ascii_chars_encode_utf8(chars);
    assert(vstd::utf8::encode_utf8(chars) =~= s) by {
        assert forall|i: int| 0 <= i < s.len() implies vstd::utf8::encode_utf8(chars)[i]
            == s[i] by {
            assert(chars[i] as u8 == vstd::utf8::encode_utf8(chars)[i]);
            assert(chars[i] == s[i] as char);
        }
    }
    vstd::utf8::encode_utf8_valid_utf8(chars);
}

/// A port that is written in decimal is read back.
pub proof fn lemma_port_round_trip(port: u16)
    ensures
        parse_u16_spec(decimal_digits(port as nat)) == Some(port),
        is_token(decimal_digits(port as nat)),
        lacks(decimal_digits(port as nat), 0x20),
{
    lemma_decimal_digits(port as nat);
    let d = decimal_digits(port as nat);
    lemma_digits_are_tokens(d);
    assert(is_digit(d[0]));
    assert(unsigned_digits(d) == d);
}

proof fn lemma_octet(a: u8)
    ensures
        is_octet_text(decimal_digits(a as nat)),
        decimal_value(decimal_digits(a as nat)) == a,
        is_token(decimal_digits(a as nat)),
        lacks(decimal_digits(a as nat), 0x20),
        lacks(decimal_digits(a as nat), 0x2e),
        lacks(decimal_digits(a as nat), 0x3a),
{
    lemma_decimal_digits(a as nat);
    lemma_digits_are_tokens(decimal_digits(a as nat));
}

/// An IPv4 address that is written in dotted form is read back.
pub proof fn lemma_ipv4_round_trip(a: u8, b: u8, c: u8, d: u8)
    ensures
        parse_ipv4_spec(ipv4_text(a, b, c, d)) == Some(IpAddress::V4(a, b, c, d)),
        is_token(ipv4_text(a, b, c, d)),
        lacks(ipv4_text(a, b, c, d), 0x20),
        lacks(ipv4_text(a, b, c, d), 0x3a),
        ipv4_text(a, b, c, d).len() >= 1,
{
    let ta = decimal_digits(a as nat);
    let tb = decimal_digits(b as nat);
    let tc = decimal_digits(c as nat);
    let td = decimal_digits(d as nat);
    lemma_octet(a);
    lemma_octet(b);
    lemma_octet(c);
    lemma_octet(d);
    let r2 = tc + seq![0x2eu8] + td;
    let r1 = tb + seq![0x2eu8] + r2;
    lemma_split_last(td, 0x2e);
    lemma_split_head(tc, 0x2e, td);
    lemma_split_head(tb, 0x2e, r2);
    lemma_split_head(ta, 0x2e, r1);
    let fields = split_fields(ipv4_text(a, b, c, d), 0x2e);
    assert(fields =~= seq![ta, tb, tc, td]);
    assert(is_token(r2) && lacks(r2, 0x20) && lacks(r2, 0x3a));
    assert(is_token(r1) && lacks(r1, 0x20) && lacks(r1, 0x3a));
}

/// Text in which no two colons stand side by side.
spec fn single_colons(s: Seq<u8>) -> bool {
    forall|j: int| !#[trigger] double_colon_begins(s, j)
}

proof fn lemma_join_group(a: Seq<u8>, rest: Seq<u8>)
    requires
        a.len() >= 1,
        lacks(a, 0x3a),
        rest.len() >= 1,
        rest[0] != 0x3a,
        single_colons(rest),
    ensures
        single_colons(a + seq![0x3au8] + rest),
        (a + seq![0x3au8] + rest)[0] != 0x3a,
{
    let s = a + seq![0x3au8] + rest;
    let k = a.len() as int;
    assert(s[0] == a[0]);
    assert forall|j: int| !#[trigger] double_colon_begins(s, j) by {
        if 0 <= j && j + 1 < s.len() {
            if j < k {
                assert(s[j] == a[j]);
            } else if j == k {
                assert(s[j + 1] == rest[0]);
            } else {
                assert(s[j] == rest[j - k - 1]);
                assert(s[j + 1] == rest[j - k]);
                assert(!double_colon_begins(rest, j - k - 1));
            }
        }
    }
}

/// What is known of the text of the groups from index `i` on.
proof fn lemma_groups_text(groups: Seq<u16>, i: int)
    requires
        0 <= i < groups.len(),
    ensures
        groups_text(groups, i).len() >= 1,
        groups_text(groups, i)[0] != 0x3a,
        single_colons(groups_text(groups, i)),
        is_token(groups_text(groups, i)),
        lacks(groups_text(groups, i), 0x20),
        lacks(groups_text(groups, i), 0x2e),
        split_fields(groups_text(groups, i), 0x3a) == Seq::new(
            (groups.len() - i) as nat,
            |k: int| hex_digits(groups[i + k] as nat),
        ),
    decreases groups.len() - i,
{
    let head = hex_digits(groups[i] as nat);
    lemma_group_is_token(groups[i]);
    if i + 1 >= groups.len() {
        lemma_split_last(head, 0x3a);
        assert(head[0] != 0x3a);
        assert forall|j: int| !#[trigger] double_colon_begins(head, j) by {
            if 0 <= j && j + 1 < head.len() {
                assert(head[j] != 0x3a);
            }
        }
        assert(split_fields(head, 0x3a) =~= Seq::new(
            (groups.len() - i) as nat,
            |k: int| hex_digits(groups[i + k] as nat),
        ));
    } else {
        let rest = groups_text(groups, i + 1);
        lemma_groups_text(groups, i + 1);
        lemma_join_group(head, rest);
        lemma_split_head(head, 0x3a, rest);
        assert(seq![head] + split_fields(rest, 0x3a) =~= Seq::new(
            (groups.len() - i) as nat,
            |k: int| hex_digits(groups[i + k] as nat),
        ));
        let s = head + seq![0x3au8] + rest;
        assert(is_token(s));
        assert(lacks(s, 0x20));
        assert(lacks(s, 0x2e));
    }
}

/// An IPv6 address that is written with all its groups is read back.
pub proof fn lemma_ipv6_round_trip(ip: IpAddress)
    requires
        ip is V6,
    ensures
        parse_ipv6_spec(ip_text(ip)) == Some(ip),
        is_token(ip_text(ip)),
        lacks(ip_text(ip), 0x20),
{
    let groups = ip.groups();
    let text = groups_text(groups, 0);
    lemma_groups_text(groups, 0);
    assert forall|j: int| 0 <= j < text.len() implies !#[trigger] double_colon_begins(text, j) by {}
    lemma_double_colon_at(text, text.len() as int);
    let fields = split_fields(text, 0x3a);
    assert(fields.len() == 8);
    assert forall|k: int| 0 <= k < 8 implies is_hex_group(#[trigger] fields[k]) && hex_value(
        fields[k],
    ) == groups[k] by {
        lemma_group_is_token(groups[k]);
    }
    // the last field holds no dot, so it is no dotted address
    lemma_group_is_token(groups[7]);
    assert(fields.last() == hex_digits(groups[7] as nat));
    lemma_split_last(fields.last(), 0x2e);
    assert(parse_ipv4_spec(fields.last()) is None);
    let read = hex_groups_of(fields);
    assert(read is Some);
    assert(read->0 =~= groups);
    assert(tail_groups(text) == Some(groups));
    assert(ipv6_of(groups) == ip);
}

/// An address that is written as text is read back in its family.
pub proof fn lemma_ip_round_trip(ip: IpAddress)
    ensures
        ip is V4 ==> parse_ipv4_spec(ip_text(ip)) == Some(ip),
        ip is V6 ==> parse_ipv6_spec(ip_text(ip)) == Some(ip),
        is_token(ip_text(ip)),
        lacks(ip_text(ip), 0x20),
{
    match ip {
        IpAddress::V4(a, b, c, d) => {
            lemma_ipv4_round_trip(a, b, c, d);
        },
        IpAddress::V6(..) => {
            lemma_ipv6_round_trip(ip);
        },
    }
}

/// The address family of an address.
pub open spec fn family_of(ip: IpAddress) -> AddrType {
    if ip is V4 {
        AddrType::V4
    } else {
        AddrType::V6
    }
}

proof fn lemma_address_round_trip(addr: SocketAddress)
    ensures
        ip_port_of_text(ip_text(addr.ip), decimal_digits(addr.port as nat), family_of(addr.ip))
            == Ok::<SocketAddress, ProxyProtocolError>(addr),
{
    lemma_ip_round_trip(addr.ip);
    lemma_port_round_trip(addr.port);
    lemma_token_is_utf8(ip_text(addr.ip));
    lemma_token_is_utf8(decimal_digits(addr.port as nat));
}

/// A written header announces version 1, and its body lies between the
/// beginning and the line end.
proof fn lemma_v1_text_shape(body: Seq<u8>)
    ensures
        version_of(v1_begin() + body + v1_end()) == Some(ProxyProtocolVersion::V1),
        (v1_begin() + body + v1_end()).subrange(6, (v1_begin() + body + v1_end()).len() - 2)
            == body,
{
    let text = v1_begin() + body + v1_end();
    assert(text.take(6) =~= v1_begin());
    assert(text.skip(text.len() - 2) =~= v1_end());
    assert(text.subrange(6, text.len() - 2) =~= body);
}

/// The five fields of a body that is made of five texts without spaces.
proof fn lemma_five_fields(a: Seq<u8>, b: Seq<u8>, c: Seq<u8>, d: Seq<u8>, e: Seq<u8>)
    requires
        lacks(a, 0x20),
        lacks(b, 0x20),
        lacks(c, 0x20),
        lacks(d, 0x20),
        lacks(e, 0x20),
    ensures
        split_fields(a + seq![0x20u8] + (b + seq![0x20u8] + (c + seq![0x20u8] + (d + seq![0x20u8]
            + e))), 0x20) == seq![a, b, c, d, e],
{
    let r3 = d + seq![0x20u8] + e;
    let r2 = c + seq![0x20u8] + r3;
    let r1 = b + seq![0x20u8] + r2;
    lemma_split_last(e, 0x20);
    lemma_split_head(d, 0x20, e);
    lemma_split_head(c, 0x20, r3);
    lemma_split_head(b, 0x20, r2);
    lemma_split_head(a, 0x20, r1);
    assert(split_fields(a + seq![0x20u8] + r1, 0x20) =~= seq![a, b, c, d, e]);
}

/// The first field of a written header names its socket type and family,
/// and its body is no heartbeat.
proof fn lemma_v1_tag(socket_type: SocketType, ip: IpAddress, rest: Seq<u8>)
    requires
        socket_type != SocketType::Unix,
    ensures
        v1_family(v1_tag(socket_type, ip)) == Some((socket_type, family_of(ip))),
        lacks(v1_tag(socket_type, ip), 0x20),
        v1_tag(socket_type, ip) + seq![0x20u8] + rest != v1_unknown(),
{
    let tag = v1_tag(socket_type, ip);
    assert(tag =~= seq![tag[0], tag[1], tag[2], tag[3]]);
    let body = tag + seq![0x20u8] + rest;
    assert(body[1] == tag[1]);
    assert(v1_unknown()[1] == 0x4e);
}

/// What a body says whose five fields, family and addresses are known.
proof fn lemma_v1_of_fields(
    body: Seq<u8>,
    tag: Seq<u8>,
    src: Seq<u8>,
    dst: Seq<u8>,
    sport: Seq<u8>,
    dport: Seq<u8>,
    header: ProxyProtocolV1,
    addr_type: AddrType,
)
    requires
        body != v1_unknown(),
        split_fields(body, 0x20) == seq![tag, src, dst, sport, dport],
        v1_family(tag) == Some((header.socket_type, addr_type)),
        ip_port_of_text(src, sport, addr_type) == Ok::<SocketAddress, ProxyProtocolError>(
            header.src_addr,
        ),
        ip_port_of_text(dst, dport, addr_type) == Ok::<SocketAddress, ProxyProtocolError>(
            header.dst_addr,
        ),
    ensures
        v1_of(body) == Ok::<Option<ProxyProtocolV1>, ProxyProtocolError>(Some(header)),
{
    let fields = split_fields(body, 0x20);
    assert(fields.len() == 5);
    assert(fields[0] == tag && fields[1] == src && fields[2] == dst && fields[3] == sport
        && fields[4] == dport);
}

/// The texts of the addresses and ports of a header hold no space.
proof fn lemma_v1_fields_lack_spaces(header: ProxyProtocolV1)
    ensures
        lacks(ip_text(header.src_addr.ip), 0x20),
        lacks(ip_text(header.dst_addr.ip), 0x20),
        lacks(decimal_digits(header.src_addr.port as nat), 0x20),
        lacks(decimal_digits(header.dst_addr.port as nat), 0x20),
{
    lemma_ip_round_trip(header.src_addr.ip);
    lemma_ip_round_trip(header.dst_addr.ip);
    lemma_port_round_trip(header.src_addr.port);
    lemma_port_round_trip(header.dst_addr.port);
}

/// The fields of the body of a written header.
proof fn lemma_v1_body_fields(header: ProxyProtocolV1)
    requires
        header.socket_type != SocketType::Unix,
    ensures
        v1_body_text(header) != v1_unknown(),
        split_fields(v1_body_text(header), 0x20) == seq![
            v1_tag(header.socket_type, header.src_addr.ip),
            ip_text(header.src_addr.ip),
            ip_text(header.dst_addr.ip),
            decimal_digits(header.src_addr.port as nat),
            decimal_digits(header.dst_addr.port as nat),
        ],
        v1_family(v1_tag(header.socket_type, header.src_addr.ip)) == Some(
            (header.socket_type, family_of(header.src_addr.ip)),
        ),
{
    let tag = v1_tag(header.socket_type, header.src_addr.ip);
    let src = ip_text(header.src_addr.ip);
    let dst = ip_text(header.dst_addr.ip);
    let sport = decimal_digits(header.src_addr.port as nat);
    let dport = decimal_digits(header.dst_addr.port as nat);
    let rest = src + seq![0x20u8] + (dst + seq![0x20u8] + (sport + seq![0x20u8] + dport));
    lemma_v1_fields_lack_spaces(header);
    lemma_v1_tag(header.socket_type, header.src_addr.ip, rest);
    lemma_five_fields(tag, src, dst, sport, dport);
}

/// The body of a written header is read as the header.
proof fn lemma_v1_body_round_trip(header: ProxyProtocolV1)
    requires
        header.socket_type != SocketType::Unix,
        header.src_addr.ip is V4 <==> header.dst_addr.ip is V4,
    ensures
        v1_of(v1_body_text(header)) == Ok::<Option<ProxyProtocolV1>, ProxyProtocolError>(
            Some(header),
        ),
{
    lemma_v1_body_fields(header);
    lemma_address_round_trip(header.src_addr);
    lemma_address_round_trip(header.dst_addr);
    lemma_v1_of_fields(
        v1_body_text(header),
        v1_tag(header.socket_type, header.src_addr.ip),
        ip_text(header.src_addr.ip),
        ip_text(header.dst_addr.ip),
        decimal_digits(header.src_addr.port as nat),
        decimal_digits(header.dst_addr.port as nat),
        header,
        family_of(header.src_addr.ip),
    );
}

/// Reading gives back what was written: the header of a TCP or UDP
/// connection between two addresses of one family, written as text with
/// its addresses and ports, is read as that header, with the socket type,
/// the addresses and the ports that it was written from.
pub proof fn lemma_v1_round_trip(header: ProxyProtocolV1)
    requires
        header.socket_type != SocketType::Unix,
        header.src_addr.ip is V4 <==> header.dst_addr.ip is V4,
    ensures
        proxy_protocol_of(v1_text(header)) == Ok::<Option<ProxyProtocol>, ProxyProtocolError>(
            Some(ProxyProtocol::V1(header)),
        ),
{
    lemma_v1_text_shape(v1_body_text(header));
    lemma_v1_body_round_trip(header);
}

// ---------------------------------------------------------------------
// Every text that is read as an address or a port is plain ASCII
// ---------------------------------------------------------------------
/// A byte of an address in text: a hexadecimal digit, a dot or a colon.
pub open spec fn is_address_byte(b: u8) -> bool {
    is_hex_digit(b) || b == 0x2e || b == 0x3a
}

/// Text made of the bytes of addresses.
pub open spec fn is_address_text(s: Seq<u8>) -> bool {
    forall|i: int| 0 <= i < s.len() ==> is_address_byte(#[trigger] s[i])
}

proof fn lemma_first_sep_found(s: Seq<u8>, sep: u8)
    ensures
        0 <= first_sep(s, sep) <= s.len(),
        first_sep(s, sep) < s.len() ==> s[first_sep(s, sep)] == sep,
    decreases s.len(),
{
    if s.len() != 0 && s[0] != sep {
        lemma_first_sep_found(s.drop_first(), sep);
        let k = first_sep(s.drop_first(), sep);
        if k < s.drop_first().len() {
            assert(s.drop_first()[k] == s[k + 1]);
        }
    }
}

/// A text whose fields are made of address bytes, between separators that
/// are address bytes, is made of address bytes.
proof fn lemma_fields_cover(s: Seq<u8>, sep: u8)
    requires
        is_address_byte(sep),
        forall|f: int|
            0 <= f < split_fields(s, sep).len() ==> is_address_text(#[trigger] split_fields(s, sep)[f]),
    ensures
        is_address_text(s),
    decreases s.len(),
{
    lemma_first_sep_found(s, sep);
    let k = first_sep(s, sep);
    let fields = split_fields(s, sep);
    if 0 <= k < s.len() {
        let head = s.take(k);
        let rest = s.skip(k + 1);
        let later = split_fields(rest, sep);
        assert(fields == seq![head] + later);
        assert(fields[0] == head);
        assert forall|f: int| 0 <= f < later.len() implies is_address_text(#[trigger] later[f]) by {
            assert(fields[f + 1] == later[f]);
        }
        lemma_fields_cover(rest, sep);
        assert forall|i: int| 0 <= i < s.len() implies is_address_byte(#[trigger] s[i]) by {
            if i < k {
                assert(head[i] == s[i]);
            } else if i > k {
                assert(rest[i - k - 1] == s[i]);
            }
        }
    } else {
        assert(fields[0] == s);
    }
}

proof fn lemma_digits_are_address_text(s: Seq<u8>)
    requires
        all_digits(s),
    ensures
        is_address_text(s),
{
    assert forall|i: int| 0 <= i < s.len() implies is_address_byte(#[trigger] s[i]) by {
        assert(is_digit(s[i]));
    }
}

proof fn lemma_hex_group_is_address_text(s: Seq<u8>)
    requires
        is_hex_group(s),
    ensures
        is_address_text(s),
{
    assert forall|i: int| 0 <= i < s.len() implies is_address_byte(#[trigger] s[i]) by {
        assert(is_hex_digit(s[i]));
    }
}

/// A text that is read as an IPv4 address is made of address bytes.
pub proof fn lemma_ipv4_text_is_plain(s: Seq<u8>)
    requires
        parse_ipv4_spec(s) is Some,
    ensures
        is_address_text(s),
{
    let fields = split_fields(s, 0x2e);
    assert forall|f: int| 0 <= f < fields.len() implies is_address_text(#[trigger] fields[f]) by {
        assert(is_octet_text(fields[f]));
        lemma_digits_are_address_text(fields[f]);
    }
    lemma_fields_cover(s, 0x2e);
}

/// Groups with colons between them, the last of which may be a dotted
/// address, are made of address bytes.
proof fn lemma_tail_groups_are_plain(s: Seq<u8>)
    requires
        tail_groups(s) is Some,
    ensures
        is_address_text(s),
{
    if s.len() > 0 {
        let fields = split_fields(s, 0x3a);
        lemma_split_nonempty(s, 0x3a);
        assert forall|f: int| 0 <= f < fields.len() implies is_address_text(#[trigger] fields[f]) by {
            if parse_ipv4_spec(fields.last()) is Some {
                if f == fields.len() - 1 {
                    lemma_ipv4_text_is_plain(fields.last());
                } else {
                    assert(hex_groups_of(fields.drop_last()) is Some);
                    assert(fields.drop_last()[f] == fields[f]);
                    assert(is_hex_group(fields.drop_last()[f]));
                    lemma_hex_group_is_address_text(fields[f]);
                }
            } else {
                assert(hex_groups_of(fields) is Some);
                assert(is_hex_group(fields[f]));
                lemma_hex_group_is_address_text(fields[f]);
            }
        }
        lemma_fields_cover(s, 0x3a);
    }
}

proof fn lemma_split_nonempty(s: Seq<u8>, sep: u8)
    ensures
        split_fields(s, sep).len() >= 1,
    decreases s.len(),
{
    let k = first_sep(s, sep);
    if 0 <= k < s.len() {
        lemma_split_nonempty(s.skip(k + 1), sep);
    }
}

proof fn lemma_double_colon_found(s: Seq<u8>)
    ensures
        0 <= double_colon_at(s) <= s.len(),
        double_colon_at(s) < s.len() ==> double_colon_begins(s, double_colon_at(s)),
    decreases s.len(),
{
    if s.len() >= 2 && !(s[0] == 0x3a && s[1] == 0x3a) {
        let rest = s.drop_first();
        lemma_double_colon_found(rest);
        let k = double_colon_at(rest);
        if k < rest.len() {
            assert(rest[k] == s[k + 1]);
            assert(rest[k + 1] == s[k + 2]);
        }
    }
}

/// A text that is read as an IPv6 address is made of address bytes.
pub proof fn lemma_ipv6_text_is_plain(s: Seq<u8>)
    requires
        parse_ipv6_spec(s) is Some,
    ensures
        is_address_text(s),
{
    lemma_double_colon_found(s);
    let k = double_colon_at(s);
    if k >= s.len() {
        lemma_tail_groups_are_plain(s);
    } else {
        let head = s.take(k);
        let tail = s.skip(k + 2);
        assert(head_groups(head) is Some && tail_groups(tail) is Some);
        if head.len() > 0 {
            let fields = split_fields(head, 0x3a);
            assert forall|f: int| 0 <= f < fields.len() implies is_address_text(
                #[trigger] fields[f],
            ) by {
                assert(is_hex_group(fields[f]));
                lemma_hex_group_is_address_text(fields[f]);
            }
            lemma_fields_cover(head, 0x3a);
        }
        lemma_tail_groups_are_plain(tail);
        assert forall|i: int| 0 <= i < s.len() implies is_address_byte(#[trigger] s[i]) by {
            if i < k {
                assert(head[i] == s[i]);
            } else if i >= k + 2 {
                assert(tail[i - k - 2] == s[i]);
            }
        }
    }
}

/// Text of address bytes holds no space and is valid UTF-8.
proof fn lemma_address_text_is_token(s: Seq<u8>)
    requires
        is_address_text(s),
    ensures
        is_token(s),
        lacks(s, 0x20),
        vstd::utf8::valid_utf8(s),
{
    assert forall|i: int| 0 <= i < s.len() implies 0x21 <= #[trigger] s[i] < 0x7f && s[i]
        != 0x20 by {
        assert(is_address_byte(s[i]));
    }
    lemma_token_is_utf8(s);
}

/// A text that is read as a port holds no space and is valid UTF-8.
pub proof fn lemma_port_text_is_plain(s: Seq<u8>)
    requires
        parse_u16_spec(s) is Some,
    ensures
        is_token(s),
        lacks(s, 0x20),
        vstd::utf8::valid_utf8(s),
{
    let digits = unsigned_digits(s);
    assert forall|i: int| 0 <= i < s.len() implies 0x21 <= #[trigger] s[i] < 0x7f && s[i]
        != 0x20 by {
        if digits == s {
            assert(is_digit(digits[i]));
        } else if i > 0 {
            assert(digits[i - 1] == s[i]);
            assert(is_digit(digits[i - 1]));
        }
    }
    lemma_token_is_utf8(s);
}

/// The address that a text writes in a family.
pub open spec fn ip_of_text(text: Seq<u8>, addr_type: AddrType) -> Option<IpAddress> {
    match addr_type {
        AddrType::V4 => parse_ipv4_spec(text),
        AddrType::V6 => parse_ipv6_spec(text),
    }
}

/// A header with the given texts for its addresses and ports.
pub open spec fn v1_text_with(
    socket_type: SocketType,
    addr_type: AddrType,
    src: Seq<u8>,
    dst: Seq<u8>,
    sport: Seq<u8>,
    dport: Seq<u8>,
) -> Seq<u8> {
    v1_begin() + (v1_tag_of(socket_type, addr_type) + seq![0x20u8] + (src + seq![0x20u8] + (dst
        + seq![0x20u8] + (sport + seq![0x20u8] + dport)))) + v1_end()
}

/// The first field of a header for a socket type and a family.
pub open spec fn v1_tag_of(socket_type: SocketType, addr_type: AddrType) -> Seq<u8> {
    seq![
        if socket_type == SocketType::TCP {
            0x54u8
        } else {
            0x55u8
        },
        if socket_type == SocketType::TCP {
            0x43u8
        } else {
            0x44u8
        },
        0x50u8,
        if addr_type == AddrType::V4 {
            0x34u8
        } else {
            0x36u8
        },
    ]
}

proof fn lemma_v1_tag_of(socket_type: SocketType, addr_type: AddrType, rest: Seq<u8>)
    requires
        socket_type != SocketType::Unix,
    ensures
        v1_family(v1_tag_of(socket_type, addr_type)) == Some((socket_type, addr_type)),
        lacks(v1_tag_of(socket_type, addr_type), 0x20),
        v1_tag_of(socket_type, addr_type) + seq![0x20u8] + rest != v1_unknown(),
{
    let tag = v1_tag_of(socket_type, addr_type);
    assert(tag =~= seq![tag[0], tag[1], tag[2], tag[3]]);
    let body = tag + seq![0x20u8] + rest;
    assert(body[1] == tag[1]);
    assert(v1_unknown()[1] == 0x4e);
}

proof fn lemma_ip_port_of_text(ip: Seq<u8>, port: Seq<u8>, addr_type: AddrType)
    requires
        ip_of_text(ip, addr_type) is Some,
        parse_u16_spec(port) is Some,
    ensures
        ip_port_of_text(ip, port, addr_type) == Ok::<SocketAddress, ProxyProtocolError>(
            SocketAddress { ip: ip_of_text(ip, addr_type)->0, port: parse_u16_spec(port)->0 },
        ),
        lacks(ip, 0x20),
        lacks(port, 0x20),
{
    match addr_type {
        AddrType::V4 => {
            lemma_ipv4_text_is_plain(ip);
        },
        AddrType::V6 => {
            lemma_ipv6_text_is_plain(ip);
        },
    }
    lemma_address_text_is_token(ip);
    lemma_port_text_is_plain(port);
}

/// Every header of version 1 for a TCP or UDP connection whose address
/// and port fields are well formed is read as the header with the socket
/// type of its first field and with the addresses and ports that its
/// fields write, in whatever form they write them.
pub proof fn lemma_v1_reads_what_is_written(
    socket_type: SocketType,
    addr_type: AddrType,
    src: Seq<u8>,
    dst: Seq<u8>,
    sport: Seq<u8>,
    dport: Seq<u8>,
)
    requires
        socket_type != SocketType::Unix,
        ip_of_text(src, addr_type) is Some,
        ip_of_text(dst, addr_type) is Some,
        parse_u16_spec(sport) is Some,
        parse_u16_spec(dport) is Some,
    ensures
        proxy_protocol_of(v1_text_with(socket_type, addr_type, src, dst, sport, dport)) == Ok::<
            Option<ProxyProtocol>,
            ProxyProtocolError,
        >(
            Some(
                ProxyProtocol::V1(
                    ProxyProtocolV1 {
                        socket_type,
                        src_addr: SocketAddress {
                            ip: ip_of_text(src, addr_type)->0,
                            port: parse_u16_spec(sport)->0,
                        },
                        dst_addr: SocketAddress {
                            ip: ip_of_text(dst, addr_type)->0,
                            port: parse_u16_spec(dport)->0,
                        },
                    },
                ),
            ),
        ),
{
    let tag = v1_tag_of(socket_type, addr_type);
    let rest = src + seq![0x20u8] + (dst + seq![0x20u8] + (sport + seq![0x20u8] + dport));
    let body = tag + seq![0x20u8] + rest;
    let header = ProxyProtocolV1 {
        socket_type,
        src_addr: SocketAddress { ip: ip_of_text(src, addr_type)->0, port: parse_u16_spec(sport)->0 },
        dst_addr: SocketAddress { ip: ip_of_text(dst, addr_type)->0, port: parse_u16_spec(dport)->0 },
    };
    lemma_ip_port_of_text(src, sport, addr_type);
    lemma_ip_port_of_text(dst, dport, addr_type);
    lemma_v1_tag_of(socket_type, addr_type, rest);
    lemma_five_fields(tag, src, dst, sport, dport);
    lemma_v1_of_fields(body, tag, src, dst, sport, dport, header, addr_type);
    lemma_v1_text_shape(body);
}

// ---------------------------------------------------------------------
// The shortened forms of an IPv6 address
// ---------------------------------------------------------------------
/// The groups from `from` up to `to`, each with a colon behind it, and
/// then `last`.
pub open spec fn groups_before(groups: Seq<u16>, from: int, to: int, last: Seq<u8>) -> Seq<u8>
    decreases to - from,
{
    if from >= to {
        last
    } else {
        hex_digits(groups[from] as nat) + seq![0x3au8] + groups_before(groups, from + 1, to, last)
    }
}

/// The groups from `from` up to `to` in hexadecimal with colons between
/// them; nothing where there is none.
pub open spec fn hex_part(groups: Seq<u16>, from: int, to: int) -> Seq<u8> {
    if from >= to {
        Seq::empty()
    } else {
        groups_before(groups, from, to - 1, hex_digits(groups[to - 1] as nat))
    }
}

/// The last two groups as a dotted IPv4 address.
pub open spec fn dotted_tail(groups: Seq<u16>) -> Seq<u8> {
    ipv4_text(
        (groups[6] / 256) as u8,
        (groups[6] % 256) as u8,
        (groups[7] / 256) as u8,
        (groups[7] % 256) as u8,
    )
}

/// The groups from `from` on to the end of an address, the last two in
/// hexadecimal or as a dotted IPv4 address.
pub open spec fn tail_part(groups: Seq<u16>, from: int, dotted: bool) -> Seq<u8> {
    if dotted {
        groups_before(groups, from, 6, dotted_tail(groups))
    } else {
        hex_part(groups, from, 8)
    }
}

/// An IPv6 address in one of its forms: with all its groups, or with "::"
/// in place of the groups from `gap.0` up to `gap.1`; and with its last two
/// groups in hexadecimal, or as a dotted IPv4 address.
pub open spec fn ipv6_text_in(groups: Seq<u16>, gap: Option<(int, int)>, dotted: bool) -> Seq<u8> {
    match gap {
        None => tail_part(groups, 0, dotted),
        Some((i, j)) => hex_part(groups, 0, i) + seq![0x3au8, 0x3au8] + tail_part(groups, j, dotted),
    }
}

/// Whether an address can be written in a form: "::" stands for at least
/// one group, all of them zero, and not for one of the last two where
/// these are written as a dotted address.
pub open spec fn is_ipv6_form(groups: Seq<u16>, gap: Option<(int, int)>, dotted: bool) -> bool {
    &&& groups.len() == 8
    &&& match gap {
        None => true,
        Some((i, j)) => {
            &&& 0 <= i < j
            &&& j <= if dotted {
                6int
            } else {
                8int
            }
            &&& forall|k: int| i <= k < j ==> #[trigger] groups[k] == 0
        },
    }
}

proof fn lemma_groups_before(groups: Seq<u16>, from: int, to: int, last: Seq<u8>)
    requires
        0 <= from <= to <= groups.len(),
        last.len() >= 1,
        lacks(last, 0x3a),
    ensures
        groups_before(groups, from, to, last).len() >= 1,
        groups_before(groups, from, to, last)[0] != 0x3a,
        groups_before(groups, from, to, last).last() != 0x3a,
        single_colons(groups_before(groups, from, to, last)),
        split_fields(groups_before(groups, from, to, last), 0x3a) == Seq::new(
            (to - from) as nat,
            |k: int| hex_digits(groups[from + k] as nat),
        ).push(last),
    decreases to - from,
{
    let text = groups_before(groups, from, to, last);
    if from >= to {
        lemma_split_last(last, 0x3a);
        assert(last[0] != 0x3a);
        assert(last[last.len() - 1] != 0x3a);
        assert forall|j: int| !#[trigger] double_colon_begins(last, j) by {
            if 0 <= j && j + 1 < last.len() {
                assert(last[j] != 0x3a);
            }
        }
        assert(split_fields(text, 0x3a) =~= Seq::new(
            (to - from) as nat,
            |k: int| hex_digits(groups[from + k] as nat),
        ).push(last));
    } else {
        let head = hex_digits(groups[from] as nat);
        let rest = groups_before(groups, from + 1, to, last);
        lemma_group_is_token(groups[from]);
        lemma_groups_before(groups, from + 1, to, last);
        lemma_join_group(head, rest);
        lemma_split_head(head, 0x3a, rest);
        assert(text.last() == rest.last());
        assert(seq![head] + split_fields(rest, 0x3a) =~= Seq::new(
            (to - from) as nat,
            |k: int| hex_digits(groups[from + k] as nat),
        ).push(last));
    }
}

/// The groups that a list of written groups holds.
proof fn lemma_hex_groups_of_written(groups: Seq<u16>, from: int, to: int)
    requires
        0 <= from <= to <= groups.len(),
    ensures
        hex_groups_of(Seq::new((to - from) as nat, |k: int| hex_digits(groups[from + k] as nat)))
            == Some(groups.subrange(from, to)),
{
    let fields = Seq::new((to - from) as nat, |k: int| hex_digits(groups[from + k] as nat));
    assert forall|k: int| 0 <= k < fields.len() implies is_hex_group(#[trigger] fields[k])
        && hex_value(fields[k]) == groups[from + k] by {
        lemma_group_is_token(groups[from + k]);
    }
    assert(hex_groups_of(fields)->0 =~= groups.subrange(from, to));
}

/// The part of a written address in front of "::" is read as its groups.
proof fn lemma_head_part(groups: Seq<u16>, i: int)
    requires
        0 <= i <= groups.len(),
    ensures
        head_groups(hex_part(groups, 0, i)) == Some(groups.subrange(0, i)),
        i > 0 ==> hex_part(groups, 0, i).len() >= 1 && hex_part(groups, 0, i).last() != 0x3a
            && single_colons(hex_part(groups, 0, i)),
        i == 0 ==> hex_part(groups, 0, i).len() == 0,
{
    if i > 0 {
        let last = hex_digits(groups[i - 1] as nat);
        lemma_group_is_token(groups[i - 1]);
        lemma_groups_before(groups, 0, i - 1, last);
        lemma_hex_groups_of_written(groups, 0, i);
        assert(Seq::new((i - 1) as nat, |k: int| hex_digits(groups[0 + k] as nat)).push(last)
            =~= Seq::new(i as nat, |k: int| hex_digits(groups[0 + k] as nat)));
    } else {
        assert(groups.subrange(0, 0) =~= Seq::<u16>::empty());
    }
}

/// The end of a written address is read as its groups.
proof fn lemma_tail_part(groups: Seq<u16>, from: int, dotted: bool)
    requires
        groups.len() == 8,
        0 <= from,
        from <= if dotted {
            6int
        } else {
            8int
        },
    ensures
        tail_groups(tail_part(groups, from, dotted)) == Some(groups.subrange(from, 8)),
        tail_part(groups, from, dotted).len() >= 1 ==> tail_part(groups, from, dotted)[0] != 0x3a
            && single_colons(tail_part(groups, from, dotted)),
{
    let text = tail_part(groups, from, dotted);
    if dotted {
        let a = (groups[6] / 256) as u8;
        let b = (groups[6] % 256) as u8;
        let c = (groups[7] / 256) as u8;
        let d = (groups[7] % 256) as u8;
        let last = dotted_tail(groups);
        lemma_ipv4_round_trip(a, b, c, d);
        lemma_groups_before(groups, from, 6, last);
        lemma_hex_groups_of_written(groups, from, 6);
        let hexes = Seq::new((6 - from) as nat, |k: int| hex_digits(groups[from + k] as nat));
        let fields = split_fields(text, 0x3a);
        assert(fields.last() == last);
        assert(fields.drop_last() =~= hexes);
        assert(groups.subrange(from, 6) + seq![(a * 256 + b) as u16, (c * 256 + d) as u16]
            =~= groups.subrange(from, 8));
    } else if from < 8 {
        let last = hex_digits(groups[7] as nat);
        lemma_group_is_token(groups[7]);
        lemma_groups_before(groups, from, 7, last);
        lemma_hex_groups_of_written(groups, from, 8);
        let fields = split_fields(text, 0x3a);
        assert(fields =~= Seq::new((8 - from) as nat, |k: int| hex_digits(groups[from + k] as nat)));
        assert(fields.last() == last);
        lemma_split_last(last, 0x2e);
        assert(parse_ipv4_spec(last) is None);
    } else {
        assert(groups.subrange(8, 8) =~= Seq::<u16>::empty());
    }
}

/// An IPv6 address that is written in any of its forms is read back: with
/// all its groups or with "::" for a run of zero groups, with its last two
/// groups in hexadecimal or as a dotted IPv4 address.
pub proof fn lemma_ipv6_forms_round_trip(groups: Seq<u16>, gap: Option<(int, int)>, dotted: bool)
    requires
        is_ipv6_form(groups, gap, dotted),
    ensures
        parse_ipv6_spec(ipv6_text_in(groups, gap, dotted)) == Some(ipv6_of(groups)),
{
    let text = ipv6_text_in(groups, gap, dotted);
    match gap {
        None => {
            lemma_tail_part(groups, 0, dotted);
            assert(text.len() >= 1) by {
                if dotted {
                    lemma_ipv4_round_trip(
                        (groups[6] / 256) as u8,
                        (groups[6] % 256) as u8,
                        (groups[7] / 256) as u8,
                        (groups[7] % 256) as u8,
                    );
                    lemma_groups_before(groups, 0, 6, dotted_tail(groups));
                } else {
                    lemma_group_is_token(groups[7]);
                    lemma_groups_before(groups, 0, 7, hex_digits(groups[7] as nat));
                }
            }
            assert forall|p: int| 0 <= p < text.len() implies !#[trigger] double_colon_begins(
                text,
                p,
            ) by {}
            lemma_double_colon_at(text, text.len() as int);
            assert(groups.subrange(0, 8) =~= groups);
        },
        Some((i, j)) => {
            let head = hex_part(groups, 0, i);
            let tail = tail_part(groups, j, dotted);
            let k = head.len() as int;
            lemma_head_part(groups, i);
            lemma_tail_part(groups, j, dotted);
            assert(text[k] == 0x3a && text[k + 1] == 0x3a);
            assert forall|p: int| 0 <= p < k implies !#[trigger] double_colon_begins(text, p) by {
                assert(text[p] == head[p]);
                if p + 1 < k {
                    assert(text[p + 1] == head[p + 1]);
                    assert(!double_colon_begins(head, p));
                } else {
                    assert(head[p] == head.last());
                }
            }
            lemma_double_colon_at(text, k);
            assert(text.take(k) =~= head);
            assert(text.skip(k + 2) =~= tail);
            let zeros = Seq::new((8 - i - (8 - j)) as nat, |m: int| 0u16);
            assert(groups.subrange(0, i) + zeros + groups.subrange(j, 8) =~= groups);
        },
    }
}

/// Reading gives back what was written, for IPv6 in every form: the
/// header of a TCP or UDP connection between two IPv6 addresses, each
/// written with all its groups or with "::" for a run of zero groups, and
/// with its last two groups in hexadecimal or as a dotted IPv4 address, is
/// read as the header with these addresses and ports.
pub proof fn lemma_v1_ipv6_round_trip(
    header: ProxyProtocolV1,
    src_gap: Option<(int, int)>,
    src_dotted: bool,
    dst_gap: Option<(int, int)>,
    dst_dotted: bool,
)
    requires
        header.socket_type != SocketType::Unix,
        header.src_addr.ip is V6,
        header.dst_addr.ip is V6,
        is_ipv6_form(header.src_addr.ip.groups(), src_gap, src_dotted),
        is_ipv6_form(header.dst_addr.ip.groups(), dst_gap, dst_dotted),
    ensures
        proxy_protocol_of(
            v1_text_with(
                header.socket_type,
                AddrType::V6,
                ipv6_text_in(header.src_addr.ip.groups(), src_gap, src_dotted),
                ipv6_text_in(header.dst_addr.ip.groups(), dst_gap, dst_dotted),
                decimal_digits(header.src_addr.port as nat),
                decimal_digits(header.dst_addr.port as nat),
            ),
        ) == Ok::<Option<ProxyProtocol>, ProxyProtocolError>(Some(ProxyProtocol::V1(header))),
{
    let src = ipv6_text_in(header.src_addr.ip.groups(), src_gap, src_dotted);
    let dst = ipv6_text_in(header.dst_addr.ip.groups(), dst_gap, dst_dotted);
    lemma_ipv6_forms_round_trip(header.src_addr.ip.groups(), src_gap, src_dotted);
    lemma_ipv6_forms_round_trip(header.dst_addr.ip.groups(), dst_gap, dst_dotted);
    assert(ipv6_of(header.src_addr.ip.groups()) == header.src_addr.ip);
    assert(ipv6_of(header.dst_addr.ip.groups()) == header.dst_addr.ip);
    lemma_port_round_trip(header.src_addr.port);
    lemma_port_round_trip(header.dst_addr.port);
    lemma_v1_reads_what_is_written(
        header.socket_type,
        AddrType::V6,
        src,
        dst,
        decimal_digits(header.src_addr.port as nat),
        decimal_digits(header.dst_addr.port as nat),
    );
}

} // verus!
