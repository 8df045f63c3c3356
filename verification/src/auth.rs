use vstd::prelude::*;
use base64::prelude::{Engine, BASE64_URL_SAFE_NO_PAD};
use crate::paths::{split_on, split_pieces, views, lemma_split_nonempty};
use crate::text::{chars_of, string_of};

verus! {

/// The bytes that URL-safe Base64 without padding decodes `input` to, if it is
/// valid Base64.
pub uninterp spec fn url_safe_decoded(input: Seq<u8>) -> Option<Seq<u8>>;

/// The URL-safe Base64 text, without padding, of `input`.
pub uninterp spec fn url_safe_encoded(input: Seq<u8>) -> Seq<char>;

/// `BASE64_URL_SAFE_NO_PAD.decode` of `base64`. It succeeds exactly when the
/// input is valid Base64 for this engine. The text of the error is left unsaid.
#[verifier::external_body]
fn base64_url_decode(input: &[u8]) -> (res: Result<Vec<u8>, String>)
    ensures
        res is Ok <==> url_safe_decoded(input@) is Some,
        res matches Ok(v) ==> url_safe_decoded(input@) == Some(v@),
{
    match BASE64_URL_SAFE_NO_PAD.decode(input) {
        Ok(v) => Ok(v),
        Err(err) => Err(err.to_string()),
    }
}

/// `BASE64_URL_SAFE_NO_PAD.encode` of `base64`. Its output is plain ASCII, and
/// the same engine decodes it back to the input.
#[verifier::external_body]
fn base64_url_encode(input: &[u8]) -> (res: String)
    ensures
        res@ == url_safe_encoded(input@),
        url_safe_decoded(res@.map_values(|c: char| c as u8)) == Some(input@),
        forall|i: int| 0 <= i < res@.len() ==> (res@[i] as u32) < 128,
{
    BASE64_URL_SAFE_NO_PAD.encode(input)
}

/// The claims a token carries: the user it belongs to and when it expires,
/// in seconds since the Unix epoch.
pub struct JWTInner {
    pub userid: u128,
    pub exp: i64,
}

/// A JSON web token, kept as the text the server handed out.
pub struct JWT(String);

/// The message for a token without a payload section.
pub open spec fn no_payload_text() -> Seq<char> {
    "no payload to decode"@
}

/// The payload section of a token: the piece between its first and second dot.
pub open spec fn payload_section(token: Seq<char>) -> Option<Seq<char>> {
    let pieces = split_on(token, '.');
    if pieces.len() >= 2 { Some(pieces[1]) } else { None }
}

impl JWT {
    /// The text of the token.
    pub closed spec fn text(self) -> Seq<char> {
        self.0@
    }

    /// Wraps token text received from elsewhere.
    pub fn from_raw(x: String) -> (res: Self)
        ensures
            res.text() == x@,
    {
        JWT(x)
    }

    /// The text of the token.
    pub fn to_string(&self) -> (res: String)
        ensures
            res@ == self.text(),
    {
        self.0.clone()
    }

    /// The payload section of the token, as text.
    pub fn payload(&self) -> (res: Option<String>)
        ensures
            payload_section(self.text()) matches Some(p) ==> res matches Some(r) && r@ == p,
            payload_section(self.text()) is None ==> res is None,
    {
        let cs = chars_of(self.0.as_str());
        let pieces = split_pieces(&cs, '.');
        proof {
            lemma_split_nonempty(cs@, '.');
        }
        if pieces.len() >= 2 {
            assert(views(pieces@)[1] == pieces@[1]@);
            Some(string_of(&pieces[1]))
        } else {
            None
        }
    }

    /// The decoded bytes of the token's payload, which hold its claims as JSON;
    /// the signature is not checked. Fails when the token has no payload
    /// section, or the section is not URL-safe Base64.
    pub fn whois_bytes(&self) -> (res: Result<Vec<u8>, String>)
        ensures
            payload_section(self.text()) is None ==> (res matches Err(e) && e@ == no_payload_text()),
            payload_section(self.text()) matches Some(p) ==> {
                &&& res is Ok <==> url_safe_decoded(vstd::utf8::encode_utf8(p)) is Some
                &&& res matches Ok(v) ==> url_safe_decoded(vstd::utf8::encode_utf8(p)) == Some(v@)
            },
    {
        match self.payload() {
            None => Err(String::from_str("no payload to decode")),
            Some(p) => {
                let bytes = p.as_str().as_bytes();
                base64_url_decode(bytes)
            },
        }
    }
}

/// Whether a token expiring at `exp` must be refreshed at time `now`: it is
/// when less than twelve hours remain.
pub fn needs_refresh(exp: i64, now: i64) -> (res: bool)
    requires
        now <= i64::MAX - 43200,
    ensures
        res == (exp < now + 43200),
{
    exp < now + 43200
}

/// The value of the `Authorization` header that logs in as `username` with
/// `password`: `Basic `, then `username:password` in URL-safe Base64 without padding.
pub fn basic_auth_header(username: &str, password: &str) -> (res: String)
    ensures
        res@ == "Basic "@ + url_safe_encoded(vstd::utf8::encode_utf8(username@ + ":"@ + password@)),
        url_safe_decoded(res@.subrange(6, res@.len() as int).map_values(|c: char| c as u8))
            == Some(vstd::utf8::encode_utf8(username@ + ":"@ + password@)),
{
    let mut joined = String::from_str(username);
    joined.append(":");
    joined.append(password);
    let enc = base64_url_encode(joined.as_str().as_bytes());
    let mut res = String::from_str("Basic ");
    res.append(enc.as_str());
    proof {
        reveal_strlit("Basic ");
        assert(res@.subrange(6, res@.len() as int) == enc@);
    }
    res
}

} // verus!
