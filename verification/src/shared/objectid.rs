//! Twelve-byte object identifiers: four bytes of time, five random bytes
//! and a counter of three bytes.

use crate::utils::{hex_digit_value, hex_text, is_hex_digit};
use vstd::prelude::*;
use vstd::string::StringSliceAdditionalSpecFns;

verus! {

#[verifier::external_type_specification]
#[verifier::external_body]
pub struct ExFromHexError(hex::FromHexError);

/// `hex::encode` writes each byte as two lower-case hexadecimal digits.
#[verifier::external_body]
fn hex_encode(bytes: &[u8]) -> (s: String)
    ensures
        s@ == hex_text(bytes@),
{
    hex::encode(bytes)
}

/// Whether a text writes bytes in hexadecimal: an even number of digits of
/// either case.
pub open spec fn is_plain_hex(text: Seq<u8>) -> bool {
    &&& text.len() % 2 == 0
    &&& forall|i: int| 0 <= i < text.len() ==> is_hex_digit(#[trigger] text[i])
}

/// The bytes that such a text writes.
pub open spec fn plain_hex_bytes(text: Seq<u8>) -> Seq<u8> {
    Seq::new(
        text.len() / 2,
        |i: int| (hex_digit_value(text[2 * i]) * 16 + hex_digit_value(text[2 * i + 1])) as u8,
    )
}

/// `hex::decode` accepts the texts with an even number of hexadecimal
/// digits of either case, and gives the byte of each pair.
#[verifier::external_body]
fn hex_decode(text: &str) -> (r: Result<Vec<u8>, hex::FromHexError>)
    ensures
        (r is Ok) <==> is_plain_hex(text.spec_bytes()),
        r matches Ok(bytes) ==> bytes@ == plain_hex_bytes(text.spec_bytes()),
{
    hex::decode(text)
}

/// `rand::fill` on five bytes. Nothing is known of what it writes.
#[verifier::external_body]
fn random_bytes() -> (bytes: [u8; 5]) {
    let mut bytes = [0u8; 5];
    rand::fill(&mut bytes);
    bytes
}

/// `SystemTime::now`, as whole seconds since the Unix epoch; `None` for a
/// clock that stands before it.
#[verifier::external_body]
fn unix_seconds() -> (seconds: Option<u64>) {
    match std::time::SystemTime::now().duration_since(std::time::UNIX_EPOCH) {
        Ok(elapsed) => Some(elapsed.as_secs()),
        Err(_) => None,
    }
}

/// Why a text is no object identifier.
#[derive(Debug, Clone, Copy, PartialEq, Eq, Structural)]
pub enum ObjectIdError {
    InvalidHex,
    InvalidLength,
}

#[derive(Debug, Clone, Copy, PartialEq, Eq, PartialOrd, Ord, Hash)]
pub struct ObjectId {
    pub bytes: [u8; 12],
}

impl View for ObjectId {
    type V = Seq<u8>;

    open spec fn view(&self) -> Seq<u8> {
        self.bytes@
    }
}

/// The four bytes of a time: its seconds, cut to 32 bits, high byte first.
pub open spec fn timestamp_part(seconds: u64) -> Seq<u8> {
    seq![
        ((seconds / 0x100_0000) % 256) as u8,
        ((seconds / 0x1_0000) % 256) as u8,
        ((seconds / 0x100) % 256) as u8,
        (seconds % 256) as u8,
    ]
}

/// The three bytes of a counter: its lowest 24 bits, high byte first.
pub open spec fn counter_part(counter: usize) -> Seq<u8> {
    seq![
        ((counter / 0x1_0000) % 256) as u8,
        ((counter / 0x100) % 256) as u8,
        (counter % 256) as u8,
    ]
}

/// The number that the first four bytes of an identifier hold.
pub open spec fn timestamp_of(bytes: Seq<u8>) -> int {
    ((bytes[0] as int * 256 + bytes[1] as int) * 256 + bytes[2] as int) * 256 + bytes[3] as int
}

impl ObjectId {
    /// The identifier made of a time in seconds, five random bytes and a
    /// counter.
    pub fn from_parts(seconds: u64, random: [u8; 5], counter: usize) -> (id: ObjectId)
        ensures
            id@ == timestamp_part(seconds) + random@ + counter_part(counter),
    {
        let bytes: [u8; 12] = [
            ((seconds / 0x100_0000) % 256) as u8,
            ((seconds / 0x1_0000) % 256) as u8,
            ((seconds / 0x100) % 256) as u8,
            (seconds % 256) as u8,
            random[0],
            random[1],
            random[2],
            random[3],
            random[4],
            ((counter / 0x1_0000) % 256) as u8,
            ((counter / 0x100) % 256) as u8,
            (counter % 256) as u8,
        ];
        assert(bytes@ =~= timestamp_part(seconds) + random@ + counter_part(counter));
        ObjectId { bytes }
    }

    /// A new identifier for the present moment, with fresh random bytes and
    /// the counter that the caller keeps. A clock that stands before the
    /// Unix epoch counts as the epoch.
    pub fn new(counter: usize) -> (id: ObjectId)
        ensures
            id@.subrange(9, 12) == counter_part(counter),
    {
        let seconds: u64 = match unix_seconds() {
            Some(s) => s,
            None => 0,
        };
        let id = ObjectId::from_parts(seconds, random_bytes(), counter);
        assert(id@.subrange(9, 12) =~= counter_part(counter));
        id
    }

    pub fn from_bytes(bytes: [u8; 12]) -> (id: ObjectId)
        ensures
            id.bytes == bytes,
    {
        ObjectId { bytes }
    }

    pub fn as_bytes(&self) -> (bytes: &[u8; 12])
        ensures
            *bytes == self.bytes,
    {
        &self.bytes
    }

    /// The identifier as twenty-four hexadecimal digits.
    pub fn to_hex(&self) -> (s: String)
        ensures
            s@ == hex_text(self@),
    {
        hex_encode(self.bytes.as_slice())
    }

    /// What `from_hex` makes of decoded bytes: they must be twelve.
    pub fn from_decoded(bytes: &Vec<u8>) -> (r: Result<ObjectId, ObjectIdError>)
        ensures
            match r {
                Ok(id) => bytes@.len() == 12 && id@ == bytes@,
                Err(e) => bytes@.len() != 12 && e == ObjectIdError::InvalidLength,
            },
    {
        if bytes.len() != 12 {
            return Err(ObjectIdError::InvalidLength);
        }
        let arr: [u8; 12] = [
            bytes[0],
            bytes[1],
            bytes[2],
            bytes[3],
            bytes[4],
            bytes[5],
            bytes[6],
            bytes[7],
            bytes[8],
            bytes[9],
            bytes[10],
            bytes[11],
        ];
        assert(arr@ =~= bytes@);
        Ok(ObjectId { bytes: arr })
    }

    /// Reads an identifier from its hexadecimal digits.
    pub fn from_hex(s: &str) -> (r: Result<ObjectId, ObjectIdError>)
        ensures
            match r {
                Ok(id) => is_plain_hex(s.spec_bytes()) && s.spec_bytes().len() == 24 && id@
                    == plain_hex_bytes(s.spec_bytes()),
                Err(ObjectIdError::InvalidHex) => !is_plain_hex(s.spec_bytes()),
                Err(ObjectIdError::InvalidLength) => is_plain_hex(s.spec_bytes())
                    && s.spec_bytes().len() != 24,
            },
    {
        match hex_decode(s) {
            Err(_) => Err(ObjectIdError::InvalidHex),
            Ok(bytes) => ObjectId::from_decoded(&bytes),
        }
    }

    /// The seconds since the Unix epoch at which the identifier was made.
    pub fn timestamp(&self) -> (t: u32)
        ensures
            t == timestamp_of(self@),
    {
        let a: u32 = self.bytes[0] as u32;
        let b: u32 = self.bytes[1] as u32;
        let c: u32 = self.bytes[2] as u32;
        let d: u32 = self.bytes[3] as u32;
        ((a * 256 + b) * 256 + c) * 256 + d
    }
}

/// The time of an identifier is the time that it was made of, cut to 32
/// bits.
pub proof fn lemma_timestamp_round_trip(seconds: u64, random: Seq<u8>, counter: usize)
    ensures
        timestamp_of(timestamp_part(seconds) + random + counter_part(counter)) == seconds
            % 0x1_0000_0000,
{
    let bytes = timestamp_part(seconds) + random + counter_part(counter);
    let a: u64 = (seconds / 0x100_0000) % 256;
    let b: u64 = (seconds / 0x1_0000) % 256;
    let c: u64 = (seconds / 0x100) % 256;
    let d: u64 = seconds % 256;
    assert(bytes[0] == timestamp_part(seconds)[0]);
    assert(bytes[1] == timestamp_part(seconds)[1]);
    assert(bytes[2] == timestamp_part(seconds)[2]);
    assert(bytes[3] == timestamp_part(seconds)[3]);
    assert(a < 256 && b < 256 && c < 256 && d < 256 && a * 0x100_0000 + b * 0x1_0000 + c * 0x100
        + d == seconds % 0x1_0000_0000) by (bit_vector)
        requires
            a == (seconds / 0x100_0000) % 256,
            b == (seconds / 0x1_0000) % 256,
            c == (seconds / 0x100) % 256,
            d == seconds % 256,
    ;
}

} // verus!
