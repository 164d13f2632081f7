//! The authenticated transport: the bearer token that goes with every
//! request, the request to post, and the reading of what came back.
//!
//! A token is made anew for each request. It holds the header
//! `{"alg":"HS256","typ":"JWT"}`, the payload `{"iat":<seconds>}` and an
//! HMAC-SHA256 signature under the shared secret, each in URL-safe base64
//! without padding, joined by dots.

use vstd::prelude::*;
use vstd::utf8::{encode_utf8, is_ascii_chars};
use crate::engine_api::{EngineApiResponse, TimedEngineApiResponse};
use crate::text::{decimal_digits, lemma_decimal_digits_u64, push_decimal};
use base64::Engine;
use hmac::Mac;

verus! {

/// The URL-safe base64 text without padding of `bytes`, as the `base64`
/// crate's `URL_SAFE_NO_PAD` engine writes it.
pub uninterp spec fn base64url_text(bytes: Seq<u8>) -> Seq<char>;

/// The HMAC-SHA256 tag of `message` under `key`, as the `hmac` and `sha2`
/// crates compute it.
pub uninterp spec fn hmac_sha256_tag(key: Seq<u8>, message: Seq<u8>) -> Seq<u8>;

/// Whether `c` belongs to the URL-safe base64 alphabet: a letter, a digit,
/// `-` or `_`.
pub open spec fn is_base64url_char(c: char) -> bool {
    ||| 'A' <= c <= 'Z'
    ||| 'a' <= c <= 'z'
    ||| '0' <= c <= '9'
    ||| c == '-'
    ||| c == '_'
}

/// Whether `s` is made of characters of the URL-safe base64 alphabet only.
pub open spec fn is_segment(s: Seq<char>) -> bool {
    forall|i: int| 0 <= i < s.len() ==> is_base64url_char(#[trigger] s[i])
}

/// The length of the base64 text without padding of `n` bytes: four
/// characters for every three bytes, and two or three for the one or two
/// bytes that are left.
pub open spec fn base64url_len(n: nat) -> nat {
    (n / 3) * 4 + if n % 3 == 0 {
        0nat
    } else {
        n % 3 + 1
    }
}

/// Calls `base64::engine::general_purpose::URL_SAFE_NO_PAD.encode`. The
/// result is taken to be a function of the input alone. It is as long as
/// the crate computes the encoded length without padding, and it is made
/// of characters of the crate's URL-safe alphabet. The engine panics where
/// the encoded length does not fit a `usize`, which an input of at most
/// `isize::MAX` bytes rules out.
#[verifier::external_body]
fn base64url_encode(input: &[u8]) -> (text: String)
    requires
        input@.len() <= isize::MAX,
    ensures
        text@ == base64url_text(input@),
        text@.len() == base64url_len(input@.len()),
        is_segment(text@),
{
    base64::engine::general_purpose::URL_SAFE_NO_PAD.encode(input)
}

/// Calls `Hmac::<Sha256>::new_from_slice`, `update` and `finalize`. The tag
/// is taken to be a function of key and message alone, 32 bytes long. HMAC
/// takes a key of any length (a short one is padded with zeros, a long one
/// hashed), so the call does not fail; the error is handed on as text all
/// the same.
#[verifier::external_body]
fn hmac_sha256(key: &[u8], message: &[u8]) -> (tag: Result<Vec<u8>, String>)
    ensures
        tag is Ok,
        tag matches Ok(t) ==> t@ == hmac_sha256_tag(key@, message@) && t@.len() == 32,
{
    let mut mac = hmac::Hmac::<sha2::Sha256>::new_from_slice(key).map_err(|e| e.to_string())?;
    mac.update(message);
    Ok(mac.finalize().into_bytes().to_vec())
}

/// What can go wrong with a request.
#[derive(Debug, Clone, PartialEq, Eq)]
pub enum JwtError {
    /// The signature could not be computed.
    HmacError(String),
    /// The request did not reach the client, or no answer came back.
    RequestError(String),
    /// The client answered with a status outside 200 to 299.
    HttpStatus(u16),
    /// The answer is not a response of the Engine API; the body is kept as
    /// it came.
    CouldNotDeserializeResponse { response_txt: String, serde_err: String },
}

impl JwtError {
    /// The text that describes the error.
    pub open spec fn message_text(self) -> Seq<char> {
        match self {
            JwtError::HmacError(e) => "HMAC error: "@ + e@,
            JwtError::RequestError(e) => "HTTP error: "@ + e@,
            JwtError::HttpStatus(code) => "HTTP status: "@ + decimal_digits(code as nat),
            JwtError::CouldNotDeserializeResponse { response_txt, .. } =>
                "could not deserialize reqwest response: "@ + response_txt@,
        }
    }

    /// Describes the error in words.
    pub fn message(&self) -> (text: String)
        ensures
            text@ == self.message_text(),
    {
        match self {
            JwtError::HmacError(e) => String::from_str("HMAC error: ").concat(e.as_str()),
            JwtError::RequestError(e) => String::from_str("HTTP error: ").concat(e.as_str()),
            JwtError::HttpStatus(code) => {
                let mut text = String::from_str("HTTP status: ");
                push_decimal(&mut text, *code as u128);
                text
            },
            JwtError::CouldNotDeserializeResponse { response_txt, .. } => String::from_str(
                "could not deserialize reqwest response: ",
            ).concat(response_txt.as_str()),
        }
    }
}

/// The header of every token.
pub open spec fn jwt_header() -> Seq<char> {
    "{\"alg\":\"HS256\",\"typ\":\"JWT\"}"@
}

/// The payload of a token issued at `issued_at` seconds after the epoch.
pub open spec fn jwt_payload(issued_at: u64) -> Seq<char> {
    "{\"iat\":"@ + decimal_digits(issued_at as nat) + "}"@
}

/// The part of a token that is signed: header and payload in base64,
/// joined by a dot.
pub open spec fn jwt_signing_input(issued_at: u64) -> Seq<char> {
    base64url_text(encode_utf8(jwt_header())) + seq!['.'] + base64url_text(
        encode_utf8(jwt_payload(issued_at)),
    )
}

/// The signature segment of a token: the HMAC-SHA256 tag of the signing
/// input under `secret`, in base64.
pub open spec fn jwt_signature(secret: Seq<u8>, issued_at: u64) -> Seq<char> {
    base64url_text(hmac_sha256_tag(secret, encode_utf8(jwt_signing_input(issued_at))))
}

/// The token for `secret` issued at `issued_at`.
pub open spec fn jwt_text(secret: Seq<u8>, issued_at: u64) -> Seq<char> {
    jwt_signing_input(issued_at) + seq!['.'] + jwt_signature(secret, issued_at)
}

/// Two tokens made in the same second under the same secret are the same
/// text.
pub proof fn lemma_token_is_determined(secret_a: Seq<u8>, at_a: u64, secret_b: Seq<u8>, at_b: u64)
    requires
        secret_a == secret_b,
        at_a == at_b,
    ensures
        jwt_text(secret_a, at_a) == jwt_text(secret_b, at_b),
{
}

/// Two tokens made in the same second under any two secrets agree in
/// header and payload: they differ exactly where their signature segments
/// differ.
pub proof fn lemma_secret_shows_in_signature_only(secret_a: Seq<u8>, secret_b: Seq<u8>, at: u64)
    ensures
        jwt_text(secret_a, at) == jwt_signing_input(at) + seq!['.'] + jwt_signature(secret_a, at),
        jwt_text(secret_b, at) == jwt_signing_input(at) + seq!['.'] + jwt_signature(secret_b, at),
        jwt_text(secret_a, at) == jwt_text(secret_b, at) <==> jwt_signature(secret_a, at)
            == jwt_signature(secret_b, at),
{
    let front = jwt_signing_input(at) + seq!['.'];
    let a = jwt_signature(secret_a, at);
    let b = jwt_signature(secret_b, at);
    assert((front + a).skip(front.len() as int) == a);
    assert((front + b).skip(front.len() as int) == b);
}

/// The header segment of every token.
pub open spec fn jwt_header_segment() -> Seq<char> {
    base64url_text(encode_utf8(jwt_header()))
}

/// The payload segment of a token issued at `issued_at`.
pub open spec fn jwt_payload_segment(issued_at: u64) -> Seq<char> {
    base64url_text(encode_utf8(jwt_payload(issued_at)))
}

/// Whether the three segments of the token for `secret` and `issued_at`
/// have the shape of base64 text: each is made of the URL-safe alphabet,
/// the header segment has 36 characters, the payload segment the length
/// that its payload encodes to, and the signature segment 43.
pub open spec fn token_is_well_shaped(secret: Seq<u8>, issued_at: u64) -> bool {
    &&& is_segment(jwt_header_segment())
    &&& jwt_header_segment().len() == 36
    &&& is_segment(jwt_payload_segment(issued_at))
    &&& jwt_payload_segment(issued_at).len() == base64url_len(
        8 + decimal_digits(issued_at as nat).len(),
    )
    &&& is_segment(jwt_signature(secret, issued_at))
    &&& jwt_signature(secret, issued_at).len() == 43
}

/// A token of well-shaped segments holds exactly two dots: one behind the
/// header segment and one behind the payload segment. So it falls into its
/// three segments, and into no others, where it is split at its dots.
pub proof fn lemma_token_has_three_segments(secret: Seq<u8>, issued_at: u64)
    requires
        token_is_well_shaped(secret, issued_at),
    ensures
        ({
            let token = jwt_text(secret, issued_at);
            let first = jwt_header_segment().len() as int;
            let second = first + 1 + jwt_payload_segment(issued_at).len();
            &&& token.len() == second + 1 + 43
            &&& token.subrange(0, first) == jwt_header_segment()
            &&& token.subrange(first + 1, second) == jwt_payload_segment(issued_at)
            &&& token.subrange(second + 1, token.len() as int) == jwt_signature(secret, issued_at)
            &&& forall|i: int|
                0 <= i < token.len() ==> (#[trigger] token[i] == '.' <==> (i == first || i
                    == second))
        }),
{
    let token = jwt_text(secret, issued_at);
    let header = jwt_header_segment();
    let payload = jwt_payload_segment(issued_at);
    let signature = jwt_signature(secret, issued_at);
    let first = header.len() as int;
    let second = first + 1 + payload.len();
    assert(token =~= header + seq!['.'] + payload + seq!['.'] + signature);
    assert(token.subrange(0, first) =~= header);
    assert(token.subrange(first + 1, second) =~= payload);
    assert(token.subrange(second + 1, token.len() as int) =~= signature);
    assert forall|i: int| 0 <= i < token.len() implies (#[trigger] token[i] == '.' <==> (i
        == first || i == second)) by {
        if i < first {
            assert(token[i] == header[i]);
            assert(is_base64url_char(header[i]));
        } else if first < i < second {
            assert(token[i] == payload[i - first - 1]);
            assert(is_base64url_char(payload[i - first - 1]));
        } else if i > second {
            assert(token[i] == signature[i - second - 1]);
            assert(is_base64url_char(signature[i - second - 1]));
        }
    }
}

/// A request as it goes out: one HTTP POST.
#[derive(Debug, Clone, PartialEq, Eq)]
pub struct HttpPost {
    /// The endpoint to post to.
    pub url: String,
    /// The value of the `Content-Type` header.
    pub content_type: String,
    /// The value of the `Authorization` header.
    pub authorization: String,
    /// The JSON text of the request.
    pub body: String,
}

/// The transport to one execution client: the shared secret and the
/// endpoint that the client listens on.
pub struct JwtClient {
    secret: Vec<u8>,
    rpc_url: String,
}

impl JwtClient {
    /// The shared secret.
    pub closed spec fn secret_bytes(&self) -> Seq<u8> {
        self.secret@
    }

    /// The endpoint.
    pub closed spec fn endpoint(&self) -> Seq<char> {
        self.rpc_url@
    }

    /// A transport that signs with `secret` and posts to `rpc_url`.
    pub fn new(secret: Vec<u8>, rpc_url: String) -> (client: Self)
        ensures
            client.secret_bytes() == secret@,
            client.endpoint() == rpc_url@,
    {
        Self { secret, rpc_url }
    }

    /// Makes the token for a request issued at `issued_at` seconds after
    /// the epoch. The token is the same for the same secret and second,
    /// and its three segments have the shape of base64 text.
    pub fn create_jwt(&self, issued_at: u64) -> (token: Result<String, JwtError>)
        ensures
            token matches Ok(t) && t@ == jwt_text(self.secret_bytes(), issued_at),
            token_is_well_shaped(self.secret_bytes(), issued_at),
    {
        let header = "{\"alg\":\"HS256\",\"typ\":\"JWT\"}";
        let mut payload = String::from_str("{\"iat\":");
        push_decimal(&mut payload, issued_at as u128);
        payload.append("}");
        proof {
            reveal_strlit("{\"alg\":\"HS256\",\"typ\":\"JWT\"}");
            reveal_strlit("{\"iat\":");
            reveal_strlit("}");
            reveal_strlit(".");
            lemma_decimal_digits_u64(issued_at);
            assert(is_ascii_chars(header@));
            assert(is_ascii_chars(payload@));
            vstd::utf8::is_ascii_chars_encode_utf8(header@);
            vstd::utf8::is_ascii_chars_encode_utf8(payload@);
        }
        let header_b64 = base64url_encode(header.as_bytes());
        let payload_b64 = base64url_encode(payload.as_str().as_bytes());
        assert(header@.len() == 27);
        assert(payload@.len() == 8 + decimal_digits(issued_at as nat).len());
        let mut unsigned = header_b64;
        unsigned.append(".");
        unsigned.append(payload_b64.as_str());
        assert(unsigned@ == jwt_signing_input(issued_at));
        let tag = match hmac_sha256(self.secret.as_slice(), unsigned.as_str().as_bytes()) {
            Ok(tag) => tag,
            Err(e) => {
                return Err(JwtError::HmacError(e));
            },
        };
        let signature = base64url_encode(tag.as_slice());
        let mut token = unsigned;
        token.append(".");
        token.append(signature.as_str());
        Ok(token)
    }

    /// Prepares the POST that carries the JSON text `body`, signed at
    /// `issued_at` seconds after the epoch.
    pub fn send_request(&self, issued_at: u64, body: String) -> (post: Result<HttpPost, JwtError>)
        ensures
            post matches Ok(p) && p.url@ == self.endpoint() && p.content_type@
                == "application/json"@ && p.authorization@ == "Bearer "@ + jwt_text(
                self.secret_bytes(),
                issued_at,
            ) && p.body == body,
            token_is_well_shaped(self.secret_bytes(), issued_at),
    {
        let jwt = match self.create_jwt(issued_at) {
            Ok(jwt) => jwt,
            Err(e) => {
                return Err(e);
            },
        };
        let authorization = String::from_str("Bearer ").concat(jwt.as_str());
        Ok(
            HttpPost {
                url: self.rpc_url.clone(),
                content_type: String::from_str("application/json"),
                authorization,
                body,
            },
        )
    }
}

/// Whether an HTTP status stands for success.
pub open spec fn is_success_status(status: u16) -> bool {
    200 <= status <= 299
}

/// What a round trip gives: an error for a status that is no success, else
/// the decoded response with the time taken, else the body as it came with
/// the decoder's complaint.
pub open spec fn response_outcome(
    status: u16,
    response_txt: String,
    time_taken_microseconds: u128,
    decoded: Result<EngineApiResponse, String>,
) -> Result<TimedEngineApiResponse, JwtError> {
    if !is_success_status(status) {
        Err(JwtError::HttpStatus(status))
    } else {
        match decoded {
            Ok(response) => Ok(TimedEngineApiResponse { time_taken_microseconds, response }),
            Err(serde_err) => Err(
                JwtError::CouldNotDeserializeResponse { response_txt, serde_err },
            ),
        }
    }
}

/// Reads what came back from a POST: the HTTP status, the body, the time
/// from just before the call until the body was read, and what decoding
/// the body as a response gave.
pub fn read_response(
    status: u16,
    response_txt: String,
    time_taken_microseconds: u128,
    decoded: Result<EngineApiResponse, String>,
) -> (outcome: Result<TimedEngineApiResponse, JwtError>)
    ensures
        outcome == response_outcome(status, response_txt, time_taken_microseconds, decoded),
{
    if status < 200 || status > 299 {
        return Err(JwtError::HttpStatus(status));
    }
    match decoded {
        Ok(response) => Ok(TimedEngineApiResponse { time_taken_microseconds, response }),
        Err(serde_err) => Err(JwtError::CouldNotDeserializeResponse { response_txt, serde_err }),
    }
}

} // verus!
