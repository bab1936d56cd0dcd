use vstd::prelude::*;
use vstd::string::StringExecFns;

use crate::skel::{Database, Request, RequestCode, RequestData};
use crate::text::{split_on, split_spec, views};

verus! {

/// The `i`-th piece of `s` split at `sep`.
pub open spec fn piece(s: Seq<char>, sep: char, i: int) -> Seq<char> {
    split_spec(s, sep)[i]
}

/// The number of pieces of `s` split at `sep`.
pub open spec fn piece_count(s: Seq<char>, sep: char) -> int {
    split_spec(s, sep).len() as int
}

/// The fields of a wire request `command[/payload],clientId,integrityHash`.
pub struct WireFields {
    /// `command[/payload]`, the text the integrity hash covers after the client id.
    pub first: String,
    pub command: String,
    pub payload: Option<String>,
    pub client: String,
    /// The integrity hash the sender claims.
    pub claimed: String,
}

fn nth(parts: &Vec<String>, i: usize) -> (r: String)
    requires
        i < parts@.len(),
    ensures
        r@ == views(parts@)[i as int],
{
    parts[i].clone()
}

/// Splits a wire request into its fields; fails when it has fewer than three
/// comma-separated fields. Fields past the third, and `/`-pieces past the
/// second of the first field, are ignored.
pub fn parse_wire(data: &str) -> (r: Option<WireFields>)
    ensures
        r is None <==> piece_count(data@, ',') < 3,
        r matches Some(w) ==> {
            let first = piece(data@, ',', 0);
            &&& w.first@ == first
            &&& w.command@ == piece(first, '/', 0)
            &&& (piece_count(first, '/') > 1 <==> w.payload is Some)
            &&& (w.payload matches Some(p) ==> p@ == piece(first, '/', 1))
            &&& w.client@ == piece(data@, ',', 1)
            &&& w.claimed@ == piece(data@, ',', 2)
        },
{
    let fields = split_on(data, ',');
    if fields.len() < 3 {
        return None;
    }
    let first = nth(&fields, 0);
    let sub = split_on(first.as_str(), '/');
    proof {
        crate::text::lemma_split_nonempty(first@, '/');
    }
    let command = nth(&sub, 0);
    let payload = if sub.len() > 1 {
        Some(nth(&sub, 1))
    } else {
        None
    };
    let client = nth(&fields, 1);
    let claimed = nth(&fields, 2);
    Some(WireFields { first, command, payload, client, claimed })
}

/// Whether a claimed integrity hash matches the one computed: byte for byte.
pub open spec fn integrity_matches(claimed: Seq<char>, computed: Seq<char>) -> bool {
    claimed == computed
}

impl WireFields {
    /// The text the integrity hash is computed over: the client id, then the first field.
    pub fn hash_input(&self) -> (r: String)
        ensures
            r@ == self.client@ + self.first@,
    {
        let mut s = self.client.clone();
        s.append(self.first.as_str());
        s
    }

    /// The request, with its integrity set by comparing the claimed hash
    /// with `computed`, the hash of `hash_input`.
    pub fn into_request(self, computed: &str) -> (r: Request)
        ensures
            r.integrity_ok() == integrity_matches(self.claimed@, computed@),
            r matches Request::Data(d) ==> self.payload matches Some(p) && d.data@ == p@
                && d.command@ == self.command@ && d.requestid@ == self.client@,
            r matches Request::Code(d) ==> self.payload is None && d.command@ == self.command@
                && d.requestid@ == self.client@,
    {
        let integrity = self.claimed == computed.to_owned();
        match self.payload {
            Some(data) => Request::Data(
                RequestData { command: self.command, data, requestid: self.client, integrity },
            ),
            None => Request::Code(
                RequestCode { command: self.command, requestid: self.client, integrity },
            ),
        }
    }
}

/// The fields of a `Store` payload `channel_messageType_hexBody_hash`.
pub struct StorePayload {
    pub channel: String,
    pub message_type: String,
    pub body: String,
    pub hash: String,
}

/// Splits a `Store` payload; fails when it has fewer than four `_`-separated fields.
pub fn parse_store_payload(data: &str) -> (r: Option<StorePayload>)
    ensures
        r is None <==> piece_count(data@, '_') < 4,
        r matches Some(p) ==> p.channel@ == piece(data@, '_', 0) && p.message_type@ == piece(
            data@,
            '_',
            1,
        ) && p.body@ == piece(data@, '_', 2) && p.hash@ == piece(data@, '_', 3),
{
    let parts = split_on(data, '_');
    if parts.len() < 4 {
        return None;
    }
    Some(
        StorePayload {
            channel: nth(&parts, 0),
            message_type: nth(&parts, 1),
            body: nth(&parts, 2),
            hash: nth(&parts, 3),
        },
    )
}

/// Splits an `Ack` payload `channel_messageBody`; fails when it has fewer
/// than two `_`-separated fields.
pub fn parse_ack_payload(data: &str) -> (r: Option<(String, String)>)
    ensures
        r is None <==> piece_count(data@, '_') < 2,
        r matches Some((c, b)) ==> c@ == piece(data@, '_', 0) && b@ == piece(data@, '_', 1),
{
    let parts = split_on(data, '_');
    if parts.len() < 2 {
        return None;
    }
    Some((nth(&parts, 0), nth(&parts, 1)))
}

/// Reads credentials written as `username/password/hostaddr/database`;
/// fails when there are fewer than four fields.
pub fn parse_credentials(blob: &str) -> (r: Option<Database>)
    ensures
        r is None <==> piece_count(blob@, '/') < 4,
        r matches Some(d) ==> d.username@ == piece(blob@, '/', 0) && d.password@ == piece(
            blob@,
            '/',
            1,
        ) && d.hostaddr@ == piece(blob@, '/', 2) && d.database@ == piece(blob@, '/', 3),
{
    let parts = split_on(blob, '/');
    if parts.len() < 4 {
        return None;
    }
    Some(
        Database {
            username: nth(&parts, 0),
            password: nth(&parts, 1),
            hostaddr: nth(&parts, 2),
            database: nth(&parts, 3),
        },
    )
}

pub open spec fn is_hex_digit(c: char) -> bool {
    ('0' <= c && c <= '9') || ('a' <= c && c <= 'f') || ('A' <= c && c <= 'F')
}

pub open spec fn hex_value(c: char) -> int {
    if '0' <= c && c <= '9' {
        c as int - '0' as int
    } else if 'a' <= c && c <= 'f' {
        c as int - 'a' as int + 10
    } else {
        c as int - 'A' as int + 10
    }
}

/// Whether `s` is hex text: an even number of hex digits.
pub open spec fn is_hex_text(s: Seq<char>) -> bool {
    s.len() % 2 == 0 && forall|i: int| 0 <= i < s.len() ==> is_hex_digit(#[trigger] s[i])
}

/// The bytes that hex text stands for, two digits each, high digit first.
pub open spec fn hex_bytes(s: Seq<char>) -> Seq<u8> {
    Seq::new(
        (s.len() / 2) as nat,
        |i: int| (hex_value(s[2 * i]) * 16 + hex_value(s[2 * i + 1])) as u8,
    )
}

#[verifier::external_type_specification]
#[verifier::external_body]
pub struct ExFromHexError(hex::FromHexError);

/// Relies on `hex::decode`: succeeds exactly on an even number of hex
/// digits (either case) and gives one byte for each two digits.
#[verifier::external_body]
fn hex_decode(s: &str) -> (r: Result<Vec<u8>, hex::FromHexError>)
    ensures
        r is Ok <==> is_hex_text(s@),
        r matches Ok(b) ==> b@ == hex_bytes(s@),
{
    hex::decode(s)
}

/// Checks that `body` is hex text; the decoded bytes themselves are not kept.
pub fn legal_body(body: &str) -> (r: bool)
    ensures
        r == is_hex_text(body@),
{
    match hex_decode(body) {
        Ok(_) => true,
        Err(_) => false,
    }
}

} // verus!
