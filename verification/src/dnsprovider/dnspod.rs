//! The client of DNSPod.

use crate::dnsprovider::base::BaseRecord;
use crate::utils::{bytes_to_hex, hex_text};
use vstd::prelude::*;
use vstd::string::{StringExecFns, StringSliceAdditionalSpecFns};

verus! {

/// The name under which the client introduces itself where none is
/// given.
pub const DEFAULT_USER_AGENT: &'static str = "dnsprovider/0.1.0";

#[derive(Debug, Clone)]
pub struct DNSPod {
    pub key_id: String,
    pub secret: String,
    pub user_agent: String,
}

#[derive(Debug, Clone)]
pub struct DNSPodRecord {
    pub id: u64,
    pub domain: String,
    pub hostname: String,
    pub record_type: String,
    pub record_value: String,
}

impl DNSPodRecord {
    pub fn id(&self) -> (r: u64)
        ensures
            r == self.id,
    {
        self.id
    }
}

impl BaseRecord for DNSPodRecord {
    open spec fn spec_hostname(&self) -> Seq<char> {
        self.hostname@
    }

    open spec fn spec_domain(&self) -> Seq<char> {
        self.domain@
    }

    open spec fn spec_record_type(&self) -> Seq<char> {
        self.record_type@
    }

    open spec fn spec_record_value(&self) -> Seq<char> {
        self.record_value@
    }

    fn hostname(&self) -> (r: &str) {
        self.hostname.as_str()
    }

    fn domain(&self) -> (r: &str) {
        self.domain.as_str()
    }

    fn record_type(&self) -> (r: &str) {
        self.record_type.as_str()
    }

    fn record_value(&self) -> (r: &str) {
        self.record_value.as_str()
    }
}

impl DNSPod {
    pub fn new(key_id: &str, secret: &str) -> (r: Self)
        ensures
            r.key_id@ == key_id@,
            r.secret@ == secret@,
            r.user_agent@ == DEFAULT_USER_AGENT@,
    {
        Self::new_with_user_agent(key_id, secret, DEFAULT_USER_AGENT)
    }

    pub fn new_with_user_agent(key_id: &str, secret: &str, user_agent: &str) -> (r: Self)
        ensures
            r.key_id@ == key_id@,
            r.secret@ == secret@,
            r.user_agent@ == user_agent@,
    {
        Self {
            key_id: String::from_str(key_id),
            secret: String::from_str(secret),
            user_agent: String::from_str(user_agent),
        }
    }
}

// ---------------------------------------------------------------------
// Records
// ---------------------------------------------------------------------
/// Compares two texts byte by byte.
pub fn same_text(a: &str, b: &str) -> (r: bool)
    ensures
        r == (a@ == b@),
{
    broadcast use vstd::utf8::encode_utf8_decode_utf8;

    let x = a.as_bytes();
    let y = b.as_bytes();
    if x.len() != y.len() {
        return false;
    }
    let n: usize = x.len();
    let mut i: usize = 0;
    while i < n
        invariant
            n == x@.len(),
            n == y@.len(),
            x@ == vstd::utf8::encode_utf8(a@),
            y@ == vstd::utf8::encode_utf8(b@),
            i <= n,
            forall|j: int| 0 <= j < i ==> x@[j] == y@[j],
        decreases n - i,
    {
        if x[i] != y[i] {
            assert(x@[i as int] != y@[i as int]);
            return false;
        }
        i = i + 1;
    }
    assert(x@ =~= y@);
    assert(vstd::utf8::decode_utf8(a.spec_bytes()) == a@);
    assert(vstd::utf8::decode_utf8(b.spec_bytes()) == b@);
    true
}

/// Whether a record is the one of a host and a type.
pub open spec fn is_record_of(record: DNSPodRecord, hostname: Seq<char>, record_type: Seq<char>) -> bool {
    record.hostname@ == hostname && record.record_type@ == record_type
}

/// The place of the first record of a host and a type in a list.
pub fn find_record(records: &Vec<DNSPodRecord>, hostname: &str, record_type: &str) -> (r: Option<
    usize,
>)
    ensures
        match r {
            Some(i) => i < records@.len() && is_record_of(records@[i as int], hostname@, record_type@)
                && forall|j: int|
                0 <= j < i ==> !is_record_of(#[trigger] records@[j], hostname@, record_type@),
            None => forall|j: int|
                0 <= j < records@.len() ==> !is_record_of(
                    #[trigger] records@[j],
                    hostname@,
                    record_type@,
                ),
        },
{
    let n: usize = records.len();
    let mut i: usize = 0;
    while i < n
        invariant
            n == records@.len(),
            i <= n,
            forall|j: int|
                0 <= j < i ==> !is_record_of(#[trigger] records@[j], hostname@, record_type@),
        decreases n - i,
    {
        if same_text(records[i].hostname.as_str(), hostname) && same_text(
            records[i].record_type.as_str(),
            record_type,
        ) {
            return Some(i);
        }
        i = i + 1;
    }
    None
}

/// What is to be done to give a host's record of a type a value.
#[derive(Debug, Clone, Copy, PartialEq, Eq, Structural)]
pub enum ModifyPlan {
    /// The host has no record of the type.
    NotFound,
    /// The record at this place has the value already.
    Unchanged(usize),
    /// The record at this place is to get the value.
    Modify(usize),
}

/// Decides what is to be done to give a host's record of a type a value:
/// the first record of the host and the type counts.
pub fn plan_modify(
    records: &Vec<DNSPodRecord>,
    hostname: &str,
    record_type: &str,
    record_value: &str,
) -> (plan: ModifyPlan)
    ensures
        match plan {
            ModifyPlan::NotFound => forall|j: int|
                0 <= j < records@.len() ==> !is_record_of(
                    #[trigger] records@[j],
                    hostname@,
                    record_type@,
                ),
            ModifyPlan::Unchanged(i) => i < records@.len() && is_record_of(
                records@[i as int],
                hostname@,
                record_type@,
            ) && records@[i as int].record_value@ == record_value@ && forall|j: int|
                0 <= j < i ==> !is_record_of(#[trigger] records@[j], hostname@, record_type@),
            ModifyPlan::Modify(i) => i < records@.len() && is_record_of(
                records@[i as int],
                hostname@,
                record_type@,
            ) && records@[i as int].record_value@ != record_value@ && forall|j: int|
                0 <= j < i ==> !is_record_of(#[trigger] records@[j], hostname@, record_type@),
        },
{
    match find_record(records, hostname, record_type) {
        None => ModifyPlan::NotFound,
        Some(i) => if same_text(records[i].record_value.as_str(), record_value) {
            ModifyPlan::Unchanged(i)
        } else {
            ModifyPlan::Modify(i)
        },
    }
}

/// The text of an error that the service answered with.
pub fn error_message(request_id: &str, error_code: &str, message: &str) -> (r: String)
    ensures
        r@ == "Request id: "@ + request_id@ + ", error code: "@ + error_code@ + ", message: "@
            + message@,
{
    let mut r = String::from_str("Request id: ");
    r.append(request_id);
    r.append(", error code: ");
    r.append(error_code);
    r.append(", message: ");
    r.append(message);
    r
}

// ---------------------------------------------------------------------
// Signing a request
// ---------------------------------------------------------------------
/// The host of the service.
pub const URL: &'static str = "dnspod.tencentcloudapi.com";

/// The version of the service's interface.
pub const DATE: &'static str = "2021-03-23";

/// The longest input that is handed to a digest, in bytes. The digests
/// count their input in bits, in 64 bits.
pub const DIGEST_INPUT_LIMIT: usize = usize::MAX / 16;

/// Name for the SHA-256 digest of a byte sequence.
pub uninterp spec fn sha256_of(data: Seq<u8>) -> Seq<u8>;

/// Name for the HMAC with SHA-256 of a byte sequence under a key.
pub uninterp spec fn hmac_sha256_of(key: Seq<u8>, data: Seq<u8>) -> Seq<u8>;

/// Name for the UTC date of a moment, given in seconds since the Unix
/// epoch, as chrono writes it with "%Y-%m-%d"; `None` for a moment that
/// chrono does not hold.
pub uninterp spec fn utc_date_of(timestamp: i64) -> Option<Seq<char>>;

/// `ring::digest::digest` with SHA-256. The digest is a function of the
/// input alone.
#[verifier::external_body]
fn sha256(data: &[u8]) -> (r: Vec<u8>)
    requires
        data@.len() <= DIGEST_INPUT_LIMIT,
    ensures
        r@ == sha256_of(data@),
        r@.len() == 32,
{
    ring::digest::digest(&ring::digest::SHA256, data).as_ref().to_vec()
}

/// `ring::hmac::sign` with a key of HMAC-SHA256. The tag is a function of
/// the key and the input alone.
#[verifier::external_body]
fn hmac_sha256(key: &[u8], data: &[u8]) -> (r: Vec<u8>)
    requires
        key@.len() <= DIGEST_INPUT_LIMIT,
        data@.len() <= DIGEST_INPUT_LIMIT,
    ensures
        r@ == hmac_sha256_of(key@, data@),
        r@.len() == 32,
{
    let hmac_key = ring::hmac::Key::new(ring::hmac::HMAC_SHA256, key);
    ring::hmac::sign(&hmac_key, data).as_ref().to_vec()
}

/// `chrono::DateTime::from_timestamp`, written with "%Y-%m-%d". The text
/// is a function of the seconds alone.
#[verifier::external_body]
fn utc_date(timestamp: i64) -> (r: Option<String>)
    ensures
        match utc_date_of(timestamp) {
            Some(text) => r matches Some(s) && s@ == text,
            None => r is None,
        },
{
    match chrono::DateTime::from_timestamp(timestamp, 0) {
        Some(moment) => Some(moment.format("%Y-%m-%d").to_string()),
        None => None,
    }
}

/// The decimal digit for a number below ten.
pub open spec fn digit_char(d: nat) -> char {
    ((0x30 + d) as u8) as char
}

/// A natural number in decimal.
pub open spec fn nat_text(n: nat) -> Seq<char>
    decreases n,
{
    if n < 10 {
        seq![digit_char(n)]
    } else {
        nat_text(n / 10).push(digit_char(n % 10))
    }
}

/// An integer in decimal, with a minus sign where it is negative.
pub open spec fn int_text(n: int) -> Seq<char> {
    if n < 0 {
        seq!['-'] + nat_text((-n) as nat)
    } else {
        nat_text(n as nat)
    }
}

fn push_decimal(s: &mut String, n: u64)
    ensures
        final(s)@ == old(s)@ + nat_text(n as nat),
    decreases n,
{
    if n >= 10 {
        push_decimal(s, n / 10);
    }
    let ghost before = s@;
    let digit: u8 = (n % 10) as u8;
    s.push((0x30 + digit) as char);
    proof {
        if n >= 10 {
            assert(s@ =~= old(s)@ + nat_text((n / 10) as nat).push(digit_char((n % 10) as nat)));
        } else {
            assert(s@ =~= old(s)@ + nat_text(n as nat));
        }
    }
}

/// Writes a number of seconds in decimal.
pub fn timestamp_text(timestamp: i64) -> (r: String)
    ensures
        r@ == int_text(timestamp as int),
{
    let mut r = String::new();
    if timestamp < 0 {
        r.push('-');
        let magnitude: u64 = ((-(timestamp + 1)) as u64) + 1;
        push_decimal(&mut r, magnitude);
        assert(r@ =~= int_text(timestamp as int));
    } else {
        push_decimal(&mut r, timestamp as u64);
        assert(r@ =~= int_text(timestamp as int));
    }
    r
}

/// The request in the form that is signed: the method, the path, no query,
/// the two signed headers with their values, their names, and the digest of
/// the content in hexadecimal.
pub open spec fn canonical_request_of(content_digest: Seq<char>) -> Seq<char> {
    "POST\n/\n\ncontent-type:application/json\nhost:dnspod.tencentcloudapi.com\n\ncontent-type;host\n"@
        + content_digest
}

pub fn canonical_request(content_digest: &str) -> (r: String)
    ensures
        r@ == canonical_request_of(content_digest@),
{
    let mut r = String::from_str(
        "POST\n/\n\ncontent-type:application/json\nhost:dnspod.tencentcloudapi.com\n\ncontent-type;host\n",
    );
    r.append(content_digest);
    r
}

/// The text that is signed: the algorithm, the moment, the scope of the
/// key, and the digest of the canonical request in hexadecimal.
pub open spec fn string_to_sign_of(timestamp: int, date: Seq<char>, request_digest: Seq<char>) -> Seq<
    char,
> {
    "TC3-HMAC-SHA256\n"@ + int_text(timestamp) + "\n"@ + date + "/dnspod/tc3_request\n"@
        + request_digest
}

pub fn string_to_sign(timestamp: i64, date: &str, request_digest: &str) -> (r: String)
    ensures
        r@ == string_to_sign_of(timestamp as int, date@, request_digest@),
{
    let mut r = String::from_str("TC3-HMAC-SHA256\n");
    r.append(timestamp_text(timestamp).as_str());
    r.append("\n");
    r.append(date);
    r.append("/dnspod/tc3_request\n");
    r.append(request_digest);
    r
}

/// The value of the Authorization header.
pub open spec fn authorization_of(key_id: Seq<char>, date: Seq<char>, signature: Seq<char>) -> Seq<
    char,
> {
    "TC3-HMAC-SHA256 Credential="@ + key_id + "/"@ + date
        + "/dnspod/tc3_request, SignedHeaders=content-type;host, Signature="@ + signature
}

pub fn authorization(key_id: &str, date: &str, signature: &str) -> (r: String)
    ensures
        r@ == authorization_of(key_id@, date@, signature@),
{
    let mut r = String::from_str("TC3-HMAC-SHA256 Credential=");
    r.append(key_id);
    r.append("/");
    r.append(date);
    r.append("/dnspod/tc3_request, SignedHeaders=content-type;host, Signature=");
    r.append(signature);
    r
}

/// The bytes of a text.
pub open spec fn utf8(text: Seq<char>) -> Seq<u8> {
    vstd::utf8::encode_utf8(text)
}

/// The key that signs the requests of a day: the secret behind "TC3", and
/// under it in turn the date, the name of the service and the word that
/// ends the scope.
pub open spec fn signing_key_of(secret: Seq<char>, date: Seq<char>) -> Seq<u8> {
    hmac_sha256_of(
        hmac_sha256_of(hmac_sha256_of(utf8("TC3"@ + secret), utf8(date)), utf8("dnspod"@)),
        utf8("tc3_request"@),
    )
}

/// The signature of a request in hexadecimal.
pub open spec fn signature_of(
    secret: Seq<char>,
    timestamp: int,
    date: Seq<char>,
    content: Seq<u8>,
) -> Seq<char> {
    hex_text(
        hmac_sha256_of(
            signing_key_of(secret, date),
            utf8(
                string_to_sign_of(
                    timestamp,
                    date,
                    hex_text(sha256_of(utf8(canonical_request_of(hex_text(sha256_of(content)))))),
                ),
            ),
        ),
    )
}

/// Whether bytes are few enough to be digested.
pub open spec fn fits(data: Seq<u8>) -> bool {
    data.len() <= DIGEST_INPUT_LIMIT
}

/// Whether all that is digested for a request is short enough.
pub open spec fn signable(secret: Seq<char>, timestamp: int, date: Seq<char>, content: Seq<u8>) -> bool {
    let request = canonical_request_of(hex_text(sha256_of(content)));
    &&& fits(utf8("TC3"@ + secret))
    &&& fits(utf8(date))
    &&& fits(content)
    &&& fits(utf8(request))
    &&& fits(utf8(string_to_sign_of(timestamp, date, hex_text(sha256_of(utf8(request))))))
}

/// The two words of the scope are short.
proof fn lemma_scope_words()
    ensures
        utf8("dnspod"@).len() == 6,
        utf8("tc3_request"@).len() == 11,
{
    reveal_strlit("dnspod");
    reveal_strlit("tc3_request");
    assert(vstd::utf8::is_ascii_chars("dnspod"@));
    assert(vstd::utf8::is_ascii_chars("tc3_request"@));
    vstd::utf8::is_ascii_chars_encode_utf8("dnspod"@);
    vstd::utf8::is_ascii_chars_encode_utf8("tc3_request"@);
}

impl DNSPod {
    /// Signs a request with the given content, made at the given moment
    /// on the given date, and gives the value of its Authorization header.
    /// `None` says that a text is too long to be digested.
    pub fn authorize_on(&self, timestamp: i64, date: &str, content: &[u8]) -> (r: Option<String>)
        ensures
            r is Some <==> signable(self.secret@, timestamp as int, date@, content@),
            r matches Some(value) ==> value@ == authorization_of(
                self.key_id@,
                date@,
                signature_of(self.secret@, timestamp as int, date@, content@),
            ),
    {
        let mut first = String::from_str("TC3");
        first.append(self.secret.as_str());
        if first.as_str().as_bytes().len() > DIGEST_INPUT_LIMIT || date.as_bytes().len()
            > DIGEST_INPUT_LIMIT || content.len() > DIGEST_INPUT_LIMIT {
            return None;
        }
        proof {
            lemma_scope_words();
        }
        let k1 = hmac_sha256(first.as_str().as_bytes(), date.as_bytes());
        let k2 = hmac_sha256(k1.as_slice(), "dnspod".as_bytes());
        let k3 = hmac_sha256(k2.as_slice(), "tc3_request".as_bytes());
        let content_digest = bytes_to_hex(sha256(content).as_slice());
        let request = canonical_request(content_digest.as_str());
        if request.as_str().as_bytes().len() > DIGEST_INPUT_LIMIT {
            return None;
        }
        let request_digest = bytes_to_hex(sha256(request.as_str().as_bytes()).as_slice());
        let to_sign = string_to_sign(timestamp, date, request_digest.as_str());
        if to_sign.as_str().as_bytes().len() > DIGEST_INPUT_LIMIT {
            return None;
        }
        let signature = bytes_to_hex(
            hmac_sha256(k3.as_slice(), to_sign.as_str().as_bytes()).as_slice(),
        );
        Some(authorization(self.key_id.as_str(), date, signature.as_str()))
    }

    /// Signs a request with the given content, made at the given moment,
    /// and gives the value of its Authorization header. `None` says that
    /// the moment has no date, or that a text is too long to be digested.
    pub fn authorize(&self, timestamp: i64, content: &[u8]) -> (r: Option<String>)
        ensures
            match utc_date_of(timestamp) {
                None => r is None,
                Some(date) => {
                    &&& r is Some <==> signable(self.secret@, timestamp as int, date, content@)
                    &&& r matches Some(value) ==> value@ == authorization_of(
                        self.key_id@,
                        date,
                        signature_of(self.secret@, timestamp as int, date, content@),
                    )
                },
            },
    {
        match utc_date(timestamp) {
            None => None,
            Some(date) => self.authorize_on(timestamp, date.as_str(), content),
        }
    }
}

} // verus!
