//! The messages between the dashboard and its management tool.

use crate::shared::objectid::ObjectId;
use vstd::prelude::*;

verus! {

/// The socket on which the dashboard listens for its management tool.
pub const MNT_PATH: &'static str = "/tmp/webgateway-mnt.sock";

#[derive(Debug, Clone, Copy, PartialEq, Eq, Structural)]
pub enum ClientRequestContent {
    AdminTOTP,
}

#[derive(Debug, Clone)]
pub struct ClientRequest {
    pub id: ObjectId,
    pub content: ClientRequestContent,
}

#[derive(Debug, Clone)]
pub enum ServerResponseContent {
    AdminTOTP { user: String, totp: String },
}

#[derive(Debug, Clone)]
pub struct ServerResponse {
    pub id: ObjectId,
    pub content: Option<ServerResponseContent>,
    pub error: Option<String>,
}

// ---------------------------------------------------------------------
// The length in front of a message
// ---------------------------------------------------------------------
/// Two to the power of 63.
pub const HALF_RANGE: u64 = 0x8000_0000_0000_0000;

/// A number with its highest bit moved to the lowest place, the other
/// bits one place up.
pub open spec fn zigzag_of(value: u64) -> u64 {
    ((value % HALF_RANGE) * 2 + value / HALF_RANGE) as u64
}

/// What a reader makes of the number that it has put together: the number
/// without its lowest bit, one place down, with its new lowest bit turned
/// over where the old one was set.
pub open spec fn unzigzag_of(n: u64) -> u64 {
    if n % 2 == 0 {
        n / 2
    } else if (n / 2) % 2 == 0 {
        (n / 2 + 1) as u64
    } else {
        (n / 2 - 1) as u64
    }
}

/// A number in groups of seven bits, the lowest group first, each in a byte
/// whose highest bit says that another follows.
pub open spec fn varint_of(n: nat) -> Seq<u8>
    decreases n,
{
    if n < 128 {
        seq![n as u8]
    } else {
        seq![(n % 128 + 128) as u8] + varint_of(n / 128)
    }
}

/// The number that groups of seven bits hold, the lowest group first.
pub open spec fn groups_value(bytes: Seq<u8>) -> nat
    decreases bytes.len(),
{
    if bytes.len() == 0 {
        0
    } else {
        (bytes[0] % 128) as nat + 128 * groups_value(bytes.drop_first())
    }
}

/// 128 to the power of `k`.
pub open spec fn pow128(k: nat) -> nat
    decreases k,
{
    if k == 0 {
        1
    } else {
        128 * pow128((k - 1) as nat)
    }
}

/// Writes a number in groups of seven bits.
pub fn encode_varint(n: u64) -> (r: Vec<u8>)
    ensures
        r@ == varint_of(n as nat),
{
    let mut out: Vec<u8> = Vec::new();
    let mut rest: u64 = n;
    while rest >= 128
        invariant
            varint_of(n as nat) == out@ + varint_of(rest as nat),
        decreases rest,
    {
        let low: u8 = (rest % 128) as u8;
        let ghost before = out@;
        out.push(low + 128);
        assert(out@ + varint_of((rest / 128) as nat) =~= before + varint_of(rest as nat));
        rest = rest / 128;
    }
    let ghost before = out@;
    out.push(rest as u8);
    assert(out@ =~= before + varint_of(rest as nat));
    out
}

/// Writes the length of a message as it stands in front of the message.
pub fn write_zigzag_varint(value: u64) -> (r: Vec<u8>)
    ensures
        r@ == varint_of(zigzag_of(value) as nat),
{
    let n: u64 = (value % HALF_RANGE) * 2 + value / HALF_RANGE;
    encode_varint(n)
}

/// What a reader says after a byte.
#[derive(Debug, Clone, Copy, PartialEq, Eq, Structural)]
pub enum VarintStep {
    /// Another byte follows.
    More,
    /// The number is complete.
    Done(u64),
    /// More bytes follow than a number of 64 bits takes.
    TooLong,
}

/// Reads the length of a message byte by byte.
pub struct ZigZagVarintReader {
    result: u64,
    groups: u8,
    scale: u64,
    fed: Ghost<Seq<u8>>,
}

impl ZigZagVarintReader {
    /// The bytes that the reader has taken in and that announced another.
    pub closed spec fn fed(&self) -> Seq<u8> {
        self.fed@
    }

    /// The reader has taken in at most nine bytes, and holds their number.
    pub closed spec fn wf(&self) -> bool {
        &&& self.fed@.len() == self.groups
        &&& self.groups <= 9
        &&& self.scale == pow128(self.groups as nat)
        &&& self.result == groups_value(self.fed@)
        &&& self.result < self.scale
    }

    pub proof fn lemma_wf_length(&self)
        requires
            self.wf(),
        ensures
            self.fed().len() <= 9,
    {
    }

    /// A reader that has taken in nothing.
    pub fn new() -> (r: Self)
        ensures
            r.wf(),
            r.fed() == Seq::<u8>::empty(),
    {
        ZigZagVarintReader { result: 0, groups: 0, scale: 1, fed: Ghost(Seq::empty()) }
    }

    /// Takes in the next byte. A byte without the highest bit completes the
    /// number, which is made of the seven-bit groups of all bytes, the
    /// lowest first, cut to 64 bits. The tenth byte that announces another
    /// is one too many.
    pub fn feed(&mut self, byte: u8) -> (step: VarintStep)
        requires
            old(self).wf(),
        ensures
            final(self).wf(),
            match step {
                VarintStep::More => byte >= 128 && final(self).fed() == old(self).fed().push(byte),
                VarintStep::Done(value) => byte < 128 && value == unzigzag_of(
                    (groups_value(old(self).fed().push(byte)) % 0x1_0000_0000_0000_0000) as u64,
                ) && final(self).fed() == Seq::<u8>::empty(),
                VarintStep::TooLong => {
                    &&& byte >= 128
                    &&& old(self).fed().len() == 9
                    &&& final(self).fed() == Seq::<u8>::empty()
                },
            },
    {
        proof {
            reveal_with_fuel(pow128, 11);
            lemma_groups_value_push(self.fed@, byte);
        }
        let value: u64 = (byte % 128) as u64;
        let total: u64 = if self.groups == 9 {
            assert(self.scale == HALF_RANGE);
            assert((value * HALF_RANGE) % 0x1_0000_0000_0000_0000 == (value % 2) * HALF_RANGE)
                by (nonlinear_arith)
                requires
                    value < 128,
            ;
            self.result + (value % 2) * self.scale
        } else {
            assert(value * self.scale + self.result < 128 * self.scale) by (nonlinear_arith)
                requires
                    value < 128,
                    self.result < self.scale,
            ;
            assert(128 * self.scale <= 0x8000_0000_0000_0000);
            self.result + value * self.scale
        };
        if byte < 128 {
            let half: u64 = total / 2;
            let decoded: u64 = if total % 2 == 0 {
                half
            } else if half % 2 == 0 {
                half + 1
            } else {
                half - 1
            };
            self.result = 0;
            self.groups = 0;
            self.scale = 1;
            self.fed = Ghost(Seq::empty());
            return VarintStep::Done(decoded);
        }
        if self.groups == 9 {
            self.result = 0;
            self.groups = 0;
            self.scale = 1;
            self.fed = Ghost(Seq::empty());
            return VarintStep::TooLong;
        }
        self.result = total;
        self.groups = self.groups + 1;
        self.scale = self.scale * 128;
        self.fed = Ghost(self.fed@.push(byte));
        VarintStep::More
    }
}

/// The number of groups with one more at their end.
pub proof fn lemma_groups_value_push(bytes: Seq<u8>, byte: u8)
    ensures
        groups_value(bytes.push(byte)) == groups_value(bytes) + (byte % 128) * pow128(bytes.len()),
    decreases bytes.len(),
{
    let s = bytes.push(byte);
    let v = (byte % 128) as nat;
    if bytes.len() == 0 {
        assert(s.drop_first() =~= Seq::<u8>::empty());
        assert(groups_value(s.drop_first()) == 0);
        assert(s[0] == byte);
        assert(pow128(0) == 1);
        assert(v * 1 == v);
    } else {
        let tail = bytes.drop_first();
        let p = pow128((bytes.len() - 1) as nat);
        assert(s.drop_first() =~= tail.push(byte));
        assert(s[0] == bytes[0]);
        lemma_groups_value_push(tail, byte);
        assert(groups_value(s.drop_first()) == groups_value(tail) + v * p);
        assert(pow128(bytes.len()) == 128 * p);
        assert(128 * (groups_value(tail) + v * p) == 128 * groups_value(tail) + v * (128 * p))
            by (nonlinear_arith);
    }
}

/// The groups of a written number hold the number; all its bytes but the
/// last announce another.
pub proof fn lemma_varint_round_trip(n: nat)
    ensures
        groups_value(varint_of(n)) == n,
        varint_of(n).len() >= 1,
        varint_of(n).last() < 128,
        forall|i: int| 0 <= i < varint_of(n).len() - 1 ==> #[trigger] varint_of(n)[i] >= 128,
    decreases n,
{
    let bytes = varint_of(n);
    if n < 128 {
        assert(bytes.drop_first() =~= Seq::<u8>::empty());
        assert(groups_value(bytes.drop_first()) == 0);
    } else {
        lemma_varint_round_trip(n / 128);
        let rest = varint_of(n / 128);
        assert(bytes.drop_first() =~= rest);
        assert(bytes.last() == rest.last());
        assert forall|i: int| 0 <= i < bytes.len() - 1 implies #[trigger] bytes[i] >= 128 by {
            if i > 0 {
                assert(bytes[i] == rest[i - 1]);
            }
        }
    }
}

/// A length below two to the power of 63 that is written and read comes
/// back as it was.
pub proof fn lemma_zigzag_round_trip(value: u64)
    requires
        value < HALF_RANGE,
    ensures
        unzigzag_of(zigzag_of(value)) == value,
        unzigzag_of(
            (groups_value(varint_of(zigzag_of(value) as nat)) % 0x1_0000_0000_0000_0000) as u64,
        ) == value,
{
    lemma_varint_round_trip(zigzag_of(value) as nat);
}

} // verus!
