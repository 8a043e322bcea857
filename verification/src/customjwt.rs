//! Three-segment signed tokens.
//!
//! A token is `header.payload.signature`: the header and the payload are
//! spelled in unpadded URL-safe Base64, and the signature is the Base64 text
//! of the HMAC-SHA256 tag of `header.payload` under the issuer's secret.
//! Header and payload are fixed when the issuer is made, so every token of
//! one issuer is the same text.

use crate::base64url::{encode, encode_spec, is_symbol_char, lemma_encode_spec_is_ascii};
use crate::hmac256::{hmac_sha256, HmacSha256};
use crate::text::{
    append_signed_decimal, chars_of, decimal_text, is_whitespace, lemma_split_at_first,
    lemma_split_without_separator, lemma_trim_is_identity, split, split_bounds, trim,
    trim_bounds,
};
use vstd::prelude::*;
use vstd::string::*;
use vstd::utf8::encode_utf8;

verus! {

/// What an issuer holds, as text.
pub struct Claims {
    /// The secret that signs and verifies.
    pub secret: Seq<char>,
    /// The header, before encoding.
    pub header: Seq<char>,
    /// The payload, before encoding.
    pub payload: Seq<char>,
}

/// The header of every token: the algorithm and the kind of signature.
pub open spec fn header_text() -> Seq<char> {
    "{\"alg\":\"HS256\",\"sign_type\":\"SIGN\"}"@
}

/// The payload for an identifier and the time of issue: the identifier as
/// it is given, twice the time as the expiry, and the time itself.
pub open spec fn payload_text(user_id: Seq<char>, time_now: int) -> Seq<char> {
    "{\"api_key\":\""@ + user_id + "\",\"exp\":"@ + decimal_text(2 * time_now)
        + ",\"timestamp\":"@ + decimal_text(time_now) + "}"@
}

/// The tag of `data` under `secret`, both taken as their UTF-8 bytes.
pub open spec fn signature(secret: Seq<char>, data: Seq<char>) -> Seq<u8> {
    hmac_sha256(encode_utf8(secret), encode_utf8(data))
}

/// What is signed: the encoded header, a dot, the encoded payload.
pub open spec fn signed_text(header: Seq<char>, payload: Seq<char>) -> Seq<char> {
    encode_spec(encode_utf8(header)) + seq!['.'] + encode_spec(encode_utf8(payload))
}

/// The token of an issuer: what is signed, a dot, the encoded signature.
pub open spec fn token_text(claims: Claims) -> Seq<char> {
    let to_sign = signed_text(claims.header, claims.payload);
    to_sign + seq!['.'] + encode_spec(signature(claims.secret, to_sign))
}

/// Whether the three pieces of a token fit together under `secret`: the
/// third is the encoded tag of the first two as they stand, joined by a dot.
pub open spec fn pieces_verify(secret: Seq<char>, pieces: Seq<Seq<char>>) -> bool {
    pieces.len() == 3 && encode_spec(signature(secret, pieces[0] + seq!['.'] + pieces[1]))
        == pieces[2]
}

/// Whether `jwt` verifies under `secret`: without the white space around
/// it, it has exactly three pieces between dots, and they fit together.
pub open spec fn token_verifies(secret: Seq<char>, jwt: Seq<char>) -> bool {
    pieces_verify(secret, split(trim(jwt), '.'))
}

/// An issuer and verifier of tokens.
pub struct CustomJwt {
    secret: String,
    header: String,
    payload: String,
}

impl View for CustomJwt {
    type V = Claims;

    closed spec fn view(&self) -> Claims {
        Claims { secret: self.secret@, header: self.header@, payload: self.payload@ }
    }
}

impl CustomJwt {
    /// An issuer for `user_id` that signs with `user_secret`, with its
    /// claims fixed at the time `time_now` in milliseconds.
    pub fn new(user_id: &str, user_secret: &str, time_now: i64) -> (issuer: CustomJwt)
        requires
            i64::MIN <= 2 * time_now <= i64::MAX,
        ensures
            issuer@ == (Claims {
                secret: user_secret@,
                header: header_text(),
                payload: payload_text(user_id@, time_now as int),
            }),
    {
        let header = String::from_str("{\"alg\":\"HS256\",\"sign_type\":\"SIGN\"}");
        let payload = CustomJwt::jwt_payload(user_id, time_now);
        CustomJwt { secret: String::from_str(user_secret), header, payload }
    }

    /// The token of this issuer; the same text at every call.
    pub fn create_jwt(&self) -> (token: String)
        ensures
            token@ == token_text(self@),
    {
        proof {
            reveal_strlit(".");
        }
        let encoded_header = encode(self.header.as_str().as_bytes());
        let encoded_payload = encode(self.payload.as_str().as_bytes());
        let mut to_sign = encoded_header;
        to_sign.append(".");
        to_sign.append(encoded_payload.as_str());
        assert(to_sign@ =~= signed_text(self@.header, self@.payload));
        let signature_bytes = self.generate_signature(to_sign.as_str());
        let calculated_signature = encode(signature_bytes.as_slice());
        let mut token = to_sign;
        token.append(".");
        token.append(calculated_signature.as_str());
        assert(token@ =~= token_text(self@));
        token
    }

    /// Whether `jwt` is a token signed with this issuer's secret. The
    /// claims inside it are not looked at.
    pub fn verify_jwt(&self, jwt: &str) -> (valid: bool)
        ensures
            valid == token_verifies(self@.secret, jwt@),
    {
        let chars = chars_of(jwt);
        let (start, end) = trim_bounds(&chars);
        let parts = split_bounds(&chars, start, end, '.');
        if parts.len() != 3 {
            return false;
        }
        let ghost pieces = split(trim(jwt@), '.');
        let (header_from, header_to) = parts[0];
        let (payload_from, payload_to) = parts[1];
        let (signature_from, signature_to) = parts[2];
        let encoded_header = jwt.substring_char(header_from, header_to);
        let encoded_payload = jwt.substring_char(payload_from, payload_to);
        let given_signature = jwt.substring_char(signature_from, signature_to);
        proof {
            reveal_strlit(".");
            assert(encoded_header@ == pieces[0]);
            assert(encoded_payload@ == pieces[1]);
            assert(given_signature@ == pieces[2]);
        }
        let mut to_verify = String::from_str(encoded_header);
        to_verify.append(".");
        to_verify.append(encoded_payload);
        assert(to_verify@ =~= pieces[0] + seq!['.'] + pieces[1]);
        let calculated_signature_bytes = self.generate_signature(to_verify.as_str());
        let calculated_signature = encode(calculated_signature_bytes.as_slice());
        calculated_signature == String::from_str(given_signature)
    }

    /// The payload for `user_id` at the time `time_now` in milliseconds.
    pub fn jwt_payload(user_id: &str, time_now: i64) -> (payload: String)
        requires
            i64::MIN <= 2 * time_now <= i64::MAX,
        ensures
            payload@ == payload_text(user_id@, time_now as int),
    {
        let exp_time = time_now * 2;
        let mut payload = String::from_str("{\"api_key\":\"");
        payload.append(user_id);
        payload.append("\",\"exp\":");
        append_signed_decimal(&mut payload, exp_time);
        payload.append(",\"timestamp\":");
        append_signed_decimal(&mut payload, time_now);
        payload.append("}");
        payload
    }

    /// The tag of `data` under this issuer's secret.
    pub fn generate_signature(&self, data: &str) -> (tag: Vec<u8>)
        ensures
            tag@ == signature(self@.secret, data@),
    {
        let mut mac = HmacSha256::new(self.secret.as_str().as_bytes());
        mac.update(data.as_bytes());
        assert(Seq::<u8>::empty() + data.spec_bytes() =~= data.spec_bytes());
        let tag = mac.finalize();
        vstd::slice::slice_to_vec(tag.as_slice())
    }
}

/// The token of an issuer verifies under that issuer's secret, whatever the
/// claims and the secret are.
pub proof fn lemma_own_token_verifies(claims: Claims)
    ensures
        token_verifies(claims.secret, token_text(claims)),
{
    let header = encode_spec(encode_utf8(claims.header));
    let payload = encode_spec(encode_utf8(claims.payload));
    let to_sign = header + seq!['.'] + payload;
    let tag = encode_spec(signature(claims.secret, to_sign));
    let token = token_text(claims);
    lemma_encode_spec_is_ascii(encode_utf8(claims.header));
    lemma_encode_spec_is_ascii(encode_utf8(claims.payload));
    lemma_encode_spec_is_ascii(signature(claims.secret, to_sign));
    assert(token =~= header + seq!['.'] + payload + seq!['.'] + tag);
    assert forall|i: int| 0 <= i < token.len() implies !is_whitespace(#[trigger] token[i]) by {
        if i < header.len() {
            assert(is_symbol_char(header[i]));
        } else if i == header.len() {
        } else if i < header.len() + 1 + payload.len() {
            assert(is_symbol_char(payload[i - header.len() - 1]));
        } else if i == header.len() + 1 + payload.len() {
        } else {
            assert(is_symbol_char(tag[i - header.len() - payload.len() - 2]));
        }
    }
    lemma_trim_is_identity(token);
    assert forall|j: int| 0 <= j < header.len() implies token[j] != '.' by {
        assert(is_symbol_char(header[j]));
    }
    lemma_split_at_first(token, '.', header.len() as int);
    assert(token.take(header.len() as int) =~= header);
    let rest = token.skip(header.len() as int + 1);
    assert(rest =~= payload + seq!['.'] + tag);
    assert forall|j: int| 0 <= j < payload.len() implies rest[j] != '.' by {
        assert(is_symbol_char(payload[j]));
    }
    lemma_split_at_first(rest, '.', payload.len() as int);
    assert(rest.take(payload.len() as int) =~= payload);
    assert(rest.skip(payload.len() as int + 1) =~= tag);
    assert forall|j: int| 0 <= j < tag.len() implies tag[j] != '.' by {
        assert(is_symbol_char(tag[j]));
    }
    lemma_split_without_separator(tag, '.');
    assert(split(token, '.') =~= seq![header, payload, tag]);
}

} // verus!
