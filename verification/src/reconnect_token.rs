//! Reconnect tokens: a signed, expiring claim to a sub-domain and a client
//! identity, carried as an opaque string.
//!
//! The claim's bytes are the sub-domain and the client id, each as UTF-8
//! behind its length, then the expiry in seconds since the Unix epoch. The
//! sealed frame is the claim's length, the claim and its signature; the
//! token is the frame in base64. Every length and the expiry take 8 bytes,
//! little-endian, so every claim can be sealed.
//!
//! A token is a bearer credential: whoever holds one that has not expired may
//! resume the session it names. Nothing revokes a token before its expiry.

use crate::ids::ClientId;
use crate::ids::ReconnectToken;
use crate::signature::hmac_tag;
use crate::signature::SigKey;
use crate::signature::Signature;
use crate::wire::append_bytes;
use crate::wire::bytes_of_text;
use crate::wire::field_bytes;
use crate::wire::lemma_field_canonical;
use crate::wire::lemma_field_round_trip;
use crate::wire::parse_field;
use crate::wire::put_field;
use crate::wire::take_field;
use crate::wire::text_of_bytes;
use base64::Engine;
use vstd::bytes::*;
use vstd::prelude::*;
use vstd::slice::*;
use vstd::utf8::*;

verus! {

/// Why a token was refused.
#[derive(Clone, Copy, Debug, PartialEq, Eq, Structural)]
pub enum Error {
    /// The bytes are not a sealed frame or not a claim.
    Malformed,
    /// The token is not base64.
    Base64,
    /// The signature is not the key's signature of the claim.
    InvalidSignature,
    /// The claim's expiry has passed.
    Expired,
}

/// A resumable session claim.
#[derive(Clone, Debug)]
pub struct ReconnectTokenPayload {
    pub sub_domain: String,
    pub client_id: ClientId,
    /// Seconds since the Unix epoch after which the claim no longer holds.
    pub expires: i64,
}

/// A claim as plain values.
pub struct PayloadView {
    pub sub_domain: Seq<char>,
    pub client_id: Seq<char>,
    pub expires: i64,
}

impl View for ReconnectTokenPayload {
    type V = PayloadView;

    open spec fn view(&self) -> PayloadView {
        PayloadView {
            sub_domain: self.sub_domain@,
            client_id: self.client_id@,
            expires: self.expires,
        }
    }
}

/// The canonical bytes of a claim.
pub open spec fn payload_bytes(claim: PayloadView) -> Seq<u8> {
    field_bytes(encode_utf8(claim.sub_domain)) + (field_bytes(encode_utf8(claim.client_id))
        + spec_u64_to_le_bytes(claim.expires as u64))
}

/// Whether a claim is small enough to exist in memory on any machine, as
/// every `ReconnectTokenPayload` is.
pub open spec fn representable(claim: PayloadView) -> bool {
    payload_bytes(claim).len() <= u64::MAX
}

/// The claim that the bytes hold, if they are canonical bytes of one.
pub open spec fn parse_payload(bytes: Seq<u8>) -> Option<PayloadView> {
    match parse_field(bytes) {
        None => None,
        Some((sub_domain, after)) => match parse_field(after) {
            None => None,
            Some((client_id, tail)) => if tail.len() == 8 && valid_utf8(sub_domain) && valid_utf8(
                client_id,
            ) {
                Some(
                    PayloadView {
                        sub_domain: decode_utf8(sub_domain),
                        client_id: decode_utf8(client_id),
                        expires: spec_u64_from_le_bytes(tail) as i64,
                    },
                )
            } else {
                None
            },
        },
    }
}

/// A claim's bytes and a signature in one frame.
pub open spec fn sealed_frame(payload: Seq<u8>, signature: Seq<u8>) -> Seq<u8>
    recommends
        payload.len() <= u64::MAX,
{
    field_bytes(payload) + signature
}

/// The claim's bytes and the signature that a frame holds.
pub open spec fn parse_frame(frame: Seq<u8>) -> Option<(Seq<u8>, Seq<u8>)> {
    parse_field(frame)
}

/// What becomes of a claim once its signature has been judged: a claim whose
/// signature failed is never looked into, and expiry is judged last.
pub open spec fn claim_outcome(signature_ok: bool, payload: Seq<u8>, now: i64) -> Result<
    PayloadView,
    Error,
> {
    if !signature_ok {
        Err(Error::InvalidSignature)
    } else {
        match parse_payload(payload) {
            None => Err(Error::Malformed),
            Some(claim) => if now > claim.expires {
                Err(Error::Expired)
            } else {
                Ok(claim)
            },
        }
    }
}

/// What becomes of a frame under `key` at time `now`.
pub open spec fn frame_outcome(frame: Seq<u8>, key: Seq<u8>, now: i64) -> Result<
    PayloadView,
    Error,
> {
    match parse_frame(frame) {
        None => Err(Error::Malformed),
        Some((payload, signature)) => claim_outcome(
            signature == hmac_tag(key, payload),
            payload,
            now,
        ),
    }
}

/// What becomes of a token, given what its text decodes to.
pub open spec fn token_outcome(decoded: Option<Seq<u8>>, key: Seq<u8>, now: i64) -> Result<
    PayloadView,
    Error,
> {
    match decoded {
        None => Err(Error::Base64),
        Some(frame) => frame_outcome(frame, key, now),
    }
}

/// A verdict on a token as plain values.
pub open spec fn verdict_view(verdict: Result<ReconnectTokenPayload, Error>) -> Result<
    PayloadView,
    Error,
> {
    match verdict {
        Ok(claim) => Ok(claim@),
        Err(e) => Err(e),
    }
}

/// The frame that `key` seals `claim` into.
pub open spec fn sealed_claim(claim: PayloadView, key: Seq<u8>) -> Seq<u8> {
    sealed_frame(payload_bytes(claim), hmac_tag(key, payload_bytes(claim)))
}

/// The length of a claim's canonical bytes.
pub proof fn lemma_payload_len(claim: PayloadView)
    ensures
        payload_bytes(claim).len() == encode_utf8(claim.sub_domain).len() + encode_utf8(
            claim.client_id,
        ).len() + 24,
{
    lemma_auto_spec_u64_to_from_le_bytes();
}

/// A claim's canonical bytes hold that claim.
pub proof fn lemma_payload_round_trip(claim: PayloadView)
    requires
        representable(claim),
    ensures
        parse_payload(payload_bytes(claim)) == Some(claim),
{
    broadcast use {encode_utf8_valid_utf8, encode_utf8_decode_utf8};

    lemma_auto_spec_u64_to_from_le_bytes();
    lemma_payload_len(claim);
    let sub_domain = encode_utf8(claim.sub_domain);
    let client_id = encode_utf8(claim.client_id);
    let tail = spec_u64_to_le_bytes(claim.expires as u64);
    lemma_field_round_trip(sub_domain, field_bytes(client_id) + tail);
    lemma_field_round_trip(client_id, tail);
    let e = claim.expires;
    assert((e as u64) as i64 == e) by (bit_vector);
}

/// A sealed frame gives back the claim's bytes and the signature.
pub proof fn lemma_frame_round_trip(payload: Seq<u8>, signature: Seq<u8>)
    requires
        payload.len() <= u64::MAX,
    ensures
        parse_frame(sealed_frame(payload, signature)) == Some((payload, signature)),
{
    lemma_field_round_trip(payload, signature);
}

/// A frame is one encoding of what it holds: the bytes and the signature
/// that come out of it seal into the same frame again.
pub proof fn lemma_frame_canonical(frame: Seq<u8>)
    requires
        parse_frame(frame) is Some,
    ensures
        ({
            let (payload, signature) = parse_frame(frame)->0;
            payload.len() <= u64::MAX && sealed_frame(payload, signature) == frame
        }),
{
    lemma_field_canonical(frame);
}

/// A claim has one canonical form: bytes that hold a claim are that claim's
/// canonical bytes.
pub proof fn lemma_payload_canonical(bytes: Seq<u8>)
    requires
        parse_payload(bytes) is Some,
        bytes.len() <= u64::MAX,
    ensures
        representable(parse_payload(bytes)->0),
        payload_bytes(parse_payload(bytes)->0) == bytes,
{
    broadcast use decode_utf8_encode_utf8;

    lemma_auto_spec_u64_to_from_le_bytes();
    let (sub_domain, after) = parse_field(bytes)->0;
    let (client_id, tail) = parse_field(after)->0;
    lemma_field_canonical(bytes);
    lemma_field_canonical(after);
    let raw = spec_u64_from_le_bytes(tail);
    assert((raw as i64) as u64 == raw) by (bit_vector);
    assert(spec_u64_to_le_bytes(spec_u64_from_le_bytes(tail)) == tail);
    assert(payload_bytes(parse_payload(bytes)->0) =~= bytes);
}

/// Round trip: a token that decodes to the frame that `key` seals `claim`
/// into, as every token that `into_token` makes does, is accepted under
/// that key with every field as it was, as long as the claim has not
/// expired.
pub proof fn lemma_round_trip(token: Seq<char>, claim: PayloadView, key: Seq<u8>, now: i64)
    requires
        representable(claim),
        base64_bytes(token) == Some(sealed_claim(claim, key)),
        now <= claim.expires,
    ensures
        token_outcome(base64_bytes(token), key, now) == Ok::<PayloadView, Error>(claim),
{
    lemma_payload_round_trip(claim);
    lemma_frame_round_trip(payload_bytes(claim), hmac_tag(key, payload_bytes(claim)));
}

/// Expiry: a token whose claim has expired is refused as expired even
/// though its signature is the right one.
pub proof fn lemma_expired_is_refused(
    token: Seq<char>,
    claim: PayloadView,
    key: Seq<u8>,
    now: i64,
)
    requires
        representable(claim),
        base64_bytes(token) == Some(sealed_claim(claim, key)),
        now > claim.expires,
    ensures
        token_outcome(base64_bytes(token), key, now) == Err::<PayloadView, Error>(Error::Expired),
{
    lemma_payload_round_trip(claim);
    lemma_frame_round_trip(payload_bytes(claim), hmac_tag(key, payload_bytes(claim)));
}

/// Integrity of the signature: a token whose frame differs from a sealed
/// one in any one byte of the signature is refused for its signature,
/// whatever the signed bytes are and whatever the time.
pub proof fn lemma_tampered_signature_is_refused(
    token: Seq<char>,
    payload: Seq<u8>,
    key: Seq<u8>,
    at: int,
    byte: u8,
    now: i64,
)
    requires
        payload.len() <= u64::MAX,
        0 <= at < hmac_tag(key, payload).len(),
        byte != hmac_tag(key, payload)[at],
        base64_bytes(token) == Some(
            sealed_frame(payload, hmac_tag(key, payload).update(at, byte)),
        ),
    ensures
        token_outcome(base64_bytes(token), key, now) == Err::<PayloadView, Error>(
            Error::InvalidSignature,
        ),
{
    let forged = hmac_tag(key, payload).update(at, byte);
    lemma_frame_round_trip(payload, forged);
    assert(forged[at] != hmac_tag(key, payload)[at]);
}

/// Integrity of the claim: a token whose frame differs from a sealed one in
/// any one byte of the signed bytes is refused for its signature, whatever
/// the time. One case is left out: changed bytes whose signature under the
/// key is the very same as that of the bytes they were changed from.
pub proof fn lemma_tampered_payload_is_refused(
    token: Seq<char>,
    payload: Seq<u8>,
    key: Seq<u8>,
    at: int,
    byte: u8,
    now: i64,
)
    requires
        payload.len() <= u64::MAX,
        0 <= at < payload.len(),
        byte != payload[at],
        hmac_tag(key, payload.update(at, byte)) != hmac_tag(key, payload),
        base64_bytes(token) == Some(
            sealed_frame(payload.update(at, byte), hmac_tag(key, payload)),
        ),
    ensures
        token_outcome(base64_bytes(token), key, now) == Err::<PayloadView, Error>(
            Error::InvalidSignature,
        ),
{
    lemma_frame_round_trip(payload.update(at, byte), hmac_tag(key, payload));
}

/// Forgery: a token that was sealed under another key is refused for its
/// signature, whatever the claim and whatever the time. One case is left
/// out: another key whose signature of the claim's bytes is the very same.
pub proof fn lemma_other_key_is_refused(
    token: Seq<char>,
    claim: PayloadView,
    key: Seq<u8>,
    other: Seq<u8>,
    now: i64,
)
    requires
        representable(claim),
        hmac_tag(other, payload_bytes(claim)) != hmac_tag(key, payload_bytes(claim)),
        base64_bytes(token) == Some(sealed_claim(claim, other)),
    ensures
        token_outcome(base64_bytes(token), key, now) == Err::<PayloadView, Error>(
            Error::InvalidSignature,
        ),
{
    lemma_frame_round_trip(payload_bytes(claim), hmac_tag(other, payload_bytes(claim)));
}

/// Nothing else is accepted: a token is accepted as `claim` exactly when it
/// decodes to the frame that `key` seals `claim` into and `claim` has not
/// expired. So no token is accepted that was not signed with the key, and
/// none after its expiry.
pub proof fn lemma_accepted_iff_sealed(
    token: Seq<char>,
    claim: PayloadView,
    key: Seq<u8>,
    now: i64,
)
    ensures
        token_outcome(base64_bytes(token), key, now) == Ok::<PayloadView, Error>(claim) <==> {
            &&& representable(claim)
            &&& base64_bytes(token) == Some(sealed_claim(claim, key))
            &&& now <= claim.expires
        },
{
    if token_outcome(base64_bytes(token), key, now) == Ok::<PayloadView, Error>(claim) {
        let frame = base64_bytes(token)->0;
        let (payload, signature) = parse_frame(frame)->0;
        lemma_frame_canonical(frame);
        lemma_payload_canonical(payload);
    }
    if representable(claim) && base64_bytes(token) == Some(sealed_claim(claim, key)) && now
        <= claim.expires {
        lemma_round_trip(token, claim, key, now);
    }
}

/// The text that standard, padded base64 gives for the bytes.
pub uninterp spec fn base64_text(bytes: Seq<u8>) -> Seq<char>;

/// The bytes that a text decodes to as standard, padded base64, if it is such
/// a text.
pub uninterp spec fn base64_bytes(text: Seq<char>) -> Option<Seq<u8>>;

/// base64's `DecodeError`, which is handed on unread: every such error
/// becomes `Error::Base64`.
#[verifier::external_type_specification]
#[verifier::external_body]
pub struct ExDecodeError(base64::DecodeError);

/// Calls `Engine::encode` of base64's `STANDARD` engine. The text depends on
/// the bytes alone, and the same engine decodes it back to those bytes. The
/// encoder gives up only where the length of the text does not fit `usize`,
/// which takes bytes in the top quarter of that range and so more than a
/// slice can hold, or where the text cannot be allocated.
#[verifier::external_body]
fn base64_encode(bytes: &[u8]) -> (text: String)
    ensures
        text@ == base64_text(bytes@),
        base64_bytes(text@) == Some(bytes@),
{
    base64::engine::general_purpose::STANDARD.encode(bytes)
}

/// Calls `Engine::decode` of base64's `STANDARD` engine. The outcome depends
/// on the text alone: the decoded bytes, or an error where the text is no
/// canonical base64.
#[verifier::external_body]
fn base64_decode(text: &str) -> (r: Result<Vec<u8>, base64::DecodeError>)
    ensures
        match r {
            Ok(bytes) => base64_bytes(text@) == Some(bytes@),
            Err(_) => base64_bytes(text@) is None,
        },
{
    base64::engine::general_purpose::STANDARD.decode(text)
}

/// Calls chrono's `Utc::now` and `DateTime::timestamp`: the seconds since
/// the Unix epoch that the system clock shows. Two calls may differ, and all
/// that is known of the value is that it is not negative: chrono does not
/// come back from a clock that is set before 1970, which no argument here
/// could rule out.
#[verifier::external_body]
fn unix_now() -> (now: i64)
    ensures
        now >= 0,
{
    chrono::Utc::now().timestamp()
}

/// Puts a claim's bytes and a signature into one frame.
pub fn seal_frame(payload: &[u8], signature: &[u8]) -> (frame: Vec<u8>)
    ensures
        frame@ == sealed_frame(payload@, signature@),
        parse_frame(frame@) == Some((payload@, signature@)),
{
    let mut frame: Vec<u8> = Vec::new();
    put_field(&mut frame, payload);
    append_bytes(&mut frame, signature);
    proof {
        assert(payload.len() <= u64::MAX);
        lemma_frame_round_trip(payload@, signature@);
    }
    frame
}

/// Takes a frame apart into the claim's bytes and the signature.
pub fn split_frame(frame: &[u8]) -> (r: Option<(Vec<u8>, Vec<u8>)>)
    ensures
        match r {
            Some((payload, signature)) => parse_frame(frame@) == Some((payload@, signature@)),
            None => parse_frame(frame@) is None,
        },
{
    proof {
        assert(frame@.skip(0) =~= frame@);
    }
    match take_field(frame, 0) {
        None => None,
        Some((payload, end)) => {
            let signature = slice_to_vec(slice_subrange(frame, end, frame.len()));
            proof {
                assert(frame@.subrange(end as int, frame@.len() as int) =~= frame@.skip(
                    end as int,
                ));
            }
            Some((payload, signature))
        },
    }
}

/// Reads a claim from its canonical bytes.
pub fn read_payload(bytes: &[u8]) -> (r: Option<ReconnectTokenPayload>)
    ensures
        match r {
            Some(claim) => parse_payload(bytes@) == Some(claim@),
            None => parse_payload(bytes@) is None,
        },
{
    proof {
        assert(bytes@.skip(0) =~= bytes@);
    }
    let (sub_domain, at) = match take_field(bytes, 0) {
        Some(field) => field,
        None => {
            return None;
        },
    };
    let (client_id, end) = match take_field(bytes, at) {
        Some(field) => field,
        None => {
            return None;
        },
    };
    if bytes.len() - end != 8 {
        return None;
    }
    let raw: u64 = u64_from_le_bytes(slice_subrange(bytes, end, bytes.len()));
    proof {
        assert(bytes@.subrange(end as int, bytes@.len() as int) =~= bytes@.skip(end as int));
    }
    let sub_domain = match text_of_bytes(sub_domain) {
        Some(text) => text,
        None => {
            return None;
        },
    };
    let client_id = match text_of_bytes(client_id) {
        Some(text) => text,
        None => {
            return None;
        },
    };
    Some(ReconnectTokenPayload { sub_domain, client_id: ClientId(client_id), expires: raw as i64 })
}

/// Judges a claim whose signature has been checked: refused for its
/// signature before anything in it is read, for its form next, for its
/// expiry last.
pub fn read_claim(signature_ok: bool, payload: &[u8], now: i64) -> (r: Result<
    ReconnectTokenPayload,
    Error,
>)
    ensures
        verdict_view(r) == claim_outcome(signature_ok, payload@, now),
{
    if !signature_ok {
        return Err(Error::InvalidSignature);
    }
    match read_payload(payload) {
        None => Err(Error::Malformed),
        Some(claim) => if now > claim.expires {
            Err(Error::Expired)
        } else {
            Ok(claim)
        },
    }
}

/// Judges a sealed frame under `key` at time `now`.
pub fn verify_frame(frame: &[u8], key: &SigKey, now: i64) -> (r: Result<
    ReconnectTokenPayload,
    Error,
>)
    ensures
        verdict_view(r) == frame_outcome(frame@, key@, now),
{
    match split_frame(frame) {
        None => Err(Error::Malformed),
        Some((payload, signature)) => {
            let signature_ok = key.verify(payload.as_slice(), &Signature(signature));
            read_claim(signature_ok, payload.as_slice(), now)
        },
    }
}

impl ReconnectTokenPayload {
    /// The claim's canonical bytes.
    pub fn to_bytes(&self) -> (bytes: Vec<u8>)
        ensures
            bytes@ == payload_bytes(self@),
            representable(self@),
            parse_payload(bytes@) == Some(self@),
    {
        let sub_domain = bytes_of_text(self.sub_domain.as_str());
        let client_id = bytes_of_text(self.client_id.0.as_str());
        let mut out: Vec<u8> = Vec::new();
        put_field(&mut out, sub_domain.as_slice());
        put_field(&mut out, client_id.as_slice());
        append_bytes(&mut out, u64_to_le_bytes(self.expires as u64).as_slice());
        proof {
            assert(out@ =~= payload_bytes(self@));
            assert(out.len() <= u64::MAX);
            lemma_payload_round_trip(self@);
        }
        out
    }

    /// Seals the claim under `key` into a token: the base64 text of the
    /// frame of the claim's bytes and the key's signature of them. Every
    /// claim can be sealed, one that has expired too. The token decodes to
    /// the sealed frame, so `verify` under the same key gives the claim back
    /// until it expires, and refuses it as expired from then on.
    pub fn into_token(self, key: &SigKey) -> (r: Result<ReconnectToken, Error>)
        ensures
            r is Ok,
            representable(self@),
            r matches Ok(token) ==> {
                &&& token@ == base64_text(sealed_claim(self@, key@))
                &&& base64_bytes(token@) == Some(sealed_claim(self@, key@))
                &&& forall|now: i64|
                    now <= self.expires ==> #[trigger] token_outcome(
                        base64_bytes(token@),
                        key@,
                        now,
                    ) == Ok::<PayloadView, Error>(self@)
                &&& forall|now: i64|
                    now > self.expires ==> #[trigger] token_outcome(
                        base64_bytes(token@),
                        key@,
                        now,
                    ) == Err::<PayloadView, Error>(Error::Expired)
            },
    {
        let payload = self.to_bytes();
        let signature = key.sign(payload.as_slice());
        let frame = seal_frame(payload.as_slice(), signature.0.as_slice());
        let token = ReconnectToken(base64_encode(frame.as_slice()));
        proof {
            assert forall|now: i64| now <= self.expires implies #[trigger] token_outcome(
                base64_bytes(token@),
                key@,
                now,
            ) == Ok::<PayloadView, Error>(self@) by {
                lemma_round_trip(token@, self@, key@, now);
            }
            assert forall|now: i64| now > self.expires implies #[trigger] token_outcome(
                base64_bytes(token@),
                key@,
                now,
            ) == Err::<PayloadView, Error>(Error::Expired) by {
                lemma_expired_is_refused(token@, self@, key@, now);
            }
        }
        Ok(token)
    }

    /// Checks a token under `key` at time `now`, in seconds since the Unix
    /// epoch: its encoding first, then its signature, then its expiry.
    pub fn verify_at(tok: ReconnectToken, key: &SigKey, now: i64) -> (r: Result<
        ReconnectTokenPayload,
        Error,
    >)
        ensures
            verdict_view(r) == token_outcome(base64_bytes(tok@), key@, now),
    {
        match base64_decode(tok.0.as_str()) {
            Err(_) => Err(Error::Base64),
            Ok(frame) => verify_frame(frame.as_slice(), key, now),
        }
    }

    /// Checks a token under `key` at the time that the system clock shows.
    /// Whatever the clock shows, the verdict is the one that `verify_at`
    /// gives for some time since the epoch: only the expiry depends on the
    /// clock, and a token that is refused for its encoding or its signature
    /// is refused so at every time.
    pub fn verify(tok: ReconnectToken, key: &SigKey) -> (r: Result<ReconnectTokenPayload, Error>)
        ensures
            exists|now: i64|
                now >= 0 && verdict_view(r) == #[trigger] token_outcome(
                    base64_bytes(tok@),
                    key@,
                    now,
                ),
    {
        let now = unix_now();
        let r = ReconnectTokenPayload::verify_at(tok, key, now);
        proof {
            assert(now >= 0 && verdict_view(r) == token_outcome(base64_bytes(tok@), key@, now));
        }
        r
    }
}

impl Error {
    /// A readable line for the refusal.
    pub fn message(&self) -> (text: &'static str)
        ensures
            text@ == match *self {
                Error::Malformed => "invalid reconnect token (structure)"@,
                Error::Base64 => "invalid base64"@,
                Error::InvalidSignature => "invalid reconnect token (signature)"@,
                Error::Expired => "reconnect token expired"@,
            },
    {
        match self {
            Error::Malformed => "invalid reconnect token (structure)",
            Error::Base64 => "invalid base64",
            Error::InvalidSignature => "invalid reconnect token (signature)",
            Error::Expired => "reconnect token expired",
        }
    }
}

} // verus!
