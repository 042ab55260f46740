//! Outgoing request signatures.
//!
//! A dispatched job carries a `Rocktick-Signature` header whose `v1` field
//! is the hex HMAC-SHA256, under the tenant's signing secret, of
//! `"." + unix_seconds + "." + url_path + ("." + body)?`.

use vstd::prelude::*;

use hmac::KeyInit;
use hmac::Mac;
use sha2::Digest;

use crate::store::MAX_TS;

verus! {

/// The HMAC-SHA256 tag over the UTF-8 bytes of a key and a message: a pure
/// function of both.
pub uninterp spec fn hmac_sha256_of(key: Seq<char>, msg: Seq<char>) -> Seq<u8>;

/// The SHA-256 digest over the UTF-8 bytes of a text: a pure function of it.
pub uninterp spec fn sha256_of(data: Seq<char>) -> Seq<u8>;

/// Whether `url::Url::parse` accepts a URL text: a pure function of it.
pub uninterp spec fn url_accepts(url: Seq<char>) -> bool;

/// The path component `url::Url::path` returns for a URL text, where the
/// text parses: a pure function of it.
pub uninterp spec fn url_path_of(url: Seq<char>) -> Option<Seq<char>>;

/// The lowercase hex digit for a nibble.
pub open spec fn hex_digit(n: int) -> char {
    if n == 0 {
        '0'
    } else if n == 1 {
        '1'
    } else if n == 2 {
        '2'
    } else if n == 3 {
        '3'
    } else if n == 4 {
        '4'
    } else if n == 5 {
        '5'
    } else if n == 6 {
        '6'
    } else if n == 7 {
        '7'
    } else if n == 8 {
        '8'
    } else if n == 9 {
        '9'
    } else if n == 10 {
        'a'
    } else if n == 11 {
        'b'
    } else if n == 12 {
        'c'
    } else if n == 13 {
        'd'
    } else if n == 14 {
        'e'
    } else {
        'f'
    }
}

/// Lowercase hex encoding: two digits per byte, high nibble first.
pub open spec fn hex_of(bytes: Seq<u8>) -> Seq<char>
    decreases bytes.len(),
{
    if bytes.len() == 0 {
        Seq::empty()
    } else {
        hex_of(bytes.drop_last()).push(hex_digit(bytes.last() as int / 16)).push(
            hex_digit(bytes.last() as int % 16),
        )
    }
}

/// Relies on `hmac::Hmac<sha2::Sha256>`: the tag is 32 bytes and depends on
/// the key and message alone.
#[verifier::external_body]
pub fn hmac_sha256(key: &str, msg: &str) -> (r: Vec<u8>)
    ensures
        r@ == hmac_sha256_of(key@, msg@),
        r@.len() == 32,
{
    let mut mac = <hmac::Hmac<sha2::Sha256>>::new_from_slice(key.as_bytes())
        .expect("HMAC accepts keys of any length");
    mac.update(msg.as_bytes());
    mac.finalize().into_bytes().to_vec()
}

/// Relies on `sha2::Sha256::digest`: the digest is 32 bytes and depends on
/// the data alone.
#[verifier::external_body]
pub fn sha256(data: &str) -> (r: Vec<u8>)
    ensures
        r@ == sha256_of(data@),
        r@.len() == 32,
{
    sha2::Sha256::digest(data.as_bytes()).to_vec()
}

/// Relies on `hex::encode`: two lowercase hex digits per byte, high nibble
/// first.
#[verifier::external_body]
pub fn to_hex(bytes: &Vec<u8>) -> (r: String)
    ensures
        r@ == hex_of(bytes@),
{
    hex::encode(bytes)
}

/// Relies on `url::Url::parse` and `Url::path`: both depend on the URL text
/// alone.
#[verifier::external_body]
pub fn url_path(u: &str) -> (r: Option<String>)
    ensures
        (match r {
            Some(p) => url_accepts(u@) && url_path_of(u@) == Some(p@),
            None => !url_accepts(u@) && url_path_of(u@) is None,
        }),
{
    match url::Url::parse(u) {
        Ok(parsed) => Some(parsed.path().to_string()),
        Err(_) => None,
    }
}

/// Relies on `url::Url::parse`: acceptance depends on the URL text alone.
#[verifier::external_body]
pub fn url_is_valid(u: &str) -> (r: bool)
    ensures
        r == url_accepts(u@),
{
    url::Url::parse(u).is_ok()
}

/// The decimal digit character for a value below ten.
pub open spec fn dec_digit(n: int) -> char {
    hex_digit(if 0 <= n < 10 {
        n
    } else {
        0
    })
}

/// The decimal rendering of a non-negative number.
pub open spec fn dec_of(n: int) -> Seq<char>
    decreases n,
{
    if n < 10 {
        Seq::empty().push(dec_digit(n))
    } else {
        dec_of(n / 10).push(dec_digit(n % 10))
    }
}

/// One decimal digit as a string.
fn digit_str(d: u64) -> (r: String)
    requires
        d < 10,
    ensures
        r@ == Seq::empty().push(dec_digit(d as int)),
{
    proof {
        reveal_strlit("0");
        reveal_strlit("1");
        reveal_strlit("2");
        reveal_strlit("3");
        reveal_strlit("4");
        reveal_strlit("5");
        reveal_strlit("6");
        reveal_strlit("7");
        reveal_strlit("8");
        reveal_strlit("9");
    }
    let s = if d == 0 {
        "0"
    } else if d == 1 {
        "1"
    } else if d == 2 {
        "2"
    } else if d == 3 {
        "3"
    } else if d == 4 {
        "4"
    } else if d == 5 {
        "5"
    } else if d == 6 {
        "6"
    } else if d == 7 {
        "7"
    } else if d == 8 {
        "8"
    } else {
        "9"
    };
    let r = String::from_str(s);
    proof {
        assert(r@ =~= Seq::empty().push(dec_digit(d as int)));
    }
    r
}

/// Decimal rendering of a number, verified against [`dec_of`].
pub fn u64_to_dec(n: u64) -> (r: String)
    ensures
        r@ == dec_of(n as int),
    decreases n,
{
    if n < 10 {
        digit_str(n)
    } else {
        let mut s = u64_to_dec(n / 10);
        let d = digit_str(n % 10);
        s.append(d.as_str());
        proof {
            assert(s@ =~= dec_of(n as int));
        }
        s
    }
}

/// The signed message: `"." + seconds + "." + path`, then `"." + body` when
/// a body is sent.
pub open spec fn sig_message(t: int, path: Seq<char>, body: Option<Seq<char>>) -> Seq<char> {
    let head = "."@ + dec_of(t) + "."@ + path;
    match body {
        Some(b) => head + "."@ + b,
        None => head,
    }
}

/// The signature header value: a JSON object carrying the time, the path and
/// the hex tag.
pub open spec fn sig_header_text(t: int, path: Seq<char>, tag_hex: Seq<char>) -> Seq<char> {
    "{\"t\":"@ + dec_of(t) + ",\"p\":\""@ + path + "\",\"v1\":\""@ + tag_hex + "\"}"@
}

/// An error while building a signature.
pub enum SigningError {
    InvalidUrl,
}

/// Builds the `Rocktick-Signature` header for one dispatched request.
pub struct SignatureBuilder {
    pub signing_key: String,
    pub time: i64,
    pub url: String,
    pub body: Option<String>,
}

impl SignatureBuilder {
    /// The header value: fails exactly when the URL does not parse; else the
    /// JSON object over the time, the URL's path and the hex HMAC-SHA256 of
    /// the signed message under the signing key.
    pub fn signature_header(self) -> (r: Result<String, SigningError>)
        requires
            0 <= self.time <= MAX_TS,
        ensures
            (match r {
                Ok(h) => url_accepts(self.url@) && (match url_path_of(self.url@) {
                    Some(path) => h@ == sig_header_text(
                        self.time as int,
                        path,
                        hex_of(
                            hmac_sha256_of(
                                self.signing_key@,
                                sig_message(
                                    self.time as int,
                                    path,
                                    match self.body {
                                        Some(b) => Some(b@),
                                        None => None,
                                    },
                                ),
                            ),
                        ),
                    ),
                    None => false,
                }),
                Err(e) => !url_accepts(self.url@),
            }),
    {
        let path = match url_path(self.url.as_str()) {
            Some(p) => p,
            None => {
                return Err(SigningError::InvalidUrl);
            },
        };
        proof {
            reveal_strlit(".");
        }
        let dot = ".";
        let mut message = String::new();
        message.append(dot);
        let ts = u64_to_dec(self.time as u64);
        message.append(ts.as_str());
        message.append(dot);
        message.append(path.as_str());
        match &self.body {
            Some(b) => {
                message.append(dot);
                message.append(b.as_str());
            },
            None => {},
        }
        let tag = hmac_sha256(self.signing_key.as_str(), message.as_str());
        let tag_hex = to_hex(&tag);

        proof {
            reveal_strlit("{\"t\":");
            reveal_strlit(",\"p\":\"");
            reveal_strlit("\",\"v1\":\"");
            reveal_strlit("\"}");
        }
        let mut header = String::new();
        header.append("{\"t\":");
        header.append(ts.as_str());
        header.append(",\"p\":\"");
        header.append(path.as_str());
        header.append("\",\"v1\":\"");
        header.append(tag_hex.as_str());
        header.append("\"}");
        proof {
            assert(message@ =~= sig_message(
                self.time as int,
                path@,
                match self.body {
                    Some(b) => Some(b@),
                    None => None,
                },
            ));
            assert(header@ =~= sig_header_text(self.time as int, path@, tag_hex@));
        }
        Ok(header)
    }
}

/// The hex digest of a request body, as the verification endpoint reports
/// it.
pub fn request_body_digest(body: &str) -> (r: String)
    ensures
        r@ == hex_of(sha256_of(body@)),
{
    let d = sha256(body);
    to_hex(&d)
}

} // verus!
