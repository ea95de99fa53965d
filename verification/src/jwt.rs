//! The signed token layer: a compact serialization of the claims in
//! three dot-separated parts — base64url of a fixed header, base64url of
//! the claims document, and an HMAC-SHA256 signature over the first two
//! parts.  Base64 and the HMAC come from outside crates behind trusted
//! wrappers; the assembly and checking around them is verified.
use crate::claims::{claims_json, lemma_parse_claims_json, parse_claims, Claims, ClaimsView};
use crate::jsonenc::{find_byte, find_byte_from, lemma_find_byte_concat};
use base64::Engine;
use vstd::prelude::*;

verus! {

/// ASCII dot, the separator between token parts.
pub const DOT: u8 = 46;

/// `{"alg":"HS256","typ":"JWT"}`
pub const HEADER_JSON: [u8; 27] = [
    123u8,
    34u8,
    97u8,
    108u8,
    103u8,
    34u8,
    58u8,
    34u8,
    72u8,
    83u8,
    50u8,
    53u8,
    54u8,
    34u8,
    44u8,
    34u8,
    116u8,
    121u8,
    112u8,
    34u8,
    58u8,
    34u8,
    74u8,
    87u8,
    84u8,
    34u8,
    125u8,
];

/// Bytes of the base64url (no padding) encoding of a byte string.
pub uninterp spec fn b64url_of(data: Seq<u8>) -> Seq<u8>;

/// Outcome of base64url (no padding) decoding: the decoded bytes, or
/// `None` for input that no byte string encodes to.
pub uninterp spec fn b64url_decoded(data: Seq<u8>) -> Option<Seq<u8>>;

/// Bytes of the base64url-encoded HMAC-SHA256 tag of a message under a
/// secret key.
pub uninterp spec fn hs256_sig(secret: Seq<u8>, message: Seq<u8>) -> Seq<u8>;

/// Relies on base64's `URL_SAFE_NO_PAD` engine: encoding is a function
/// of the input alone, decoding undoes it, and the output stays within
/// the base64url alphabet, which has no dot.
#[verifier::external_body]
pub fn b64url_encode(data: &[u8]) -> (r: Vec<u8>)
    ensures
        r@ == b64url_of(data@),
        b64url_decoded(r@) == Some(data@),
        forall|k: int| 0 <= k < r@.len() ==> r@[k] != DOT,
{
    base64::engine::general_purpose::URL_SAFE_NO_PAD.encode(data).into_bytes()
}

/// Relies on base64's `URL_SAFE_NO_PAD` engine: decoding is a function
/// of the input alone and rejects what no byte string encodes to (the
/// engine requires canonical input: no padding, no trailing bits).
#[verifier::external_body]
pub fn b64url_decode(data: &[u8]) -> (r: Option<Vec<u8>>)
    ensures
        match r {
            Some(v) => b64url_decoded(data@) == Some(v@),
            None => b64url_decoded(data@) is None,
        },
{
    base64::engine::general_purpose::URL_SAFE_NO_PAD.decode(data).ok()
}

/// Relies on `jsonwebtoken::crypto::sign` with HS256: the signature is
/// a function of secret and message alone, never fails for the HMAC
/// family, and is base64url text, which has no dot.
#[verifier::external_body]
pub fn hs256_sign(secret: &[u8], message: &[u8]) -> (r: Vec<u8>)
    ensures
        r@ == hs256_sig(secret@, message@),
        forall|k: int| 0 <= k < r@.len() ==> r@[k] != DOT,
{
    let key = jsonwebtoken::EncodingKey::from_secret(secret);
    match jsonwebtoken::crypto::sign(message, &key, jsonwebtoken::Algorithm::HS256) {
        Ok(sig) => sig.into_bytes(),
        Err(_) => Vec::new(),
    }
}

/// Relies on `jsonwebtoken::crypto::verify` with HS256, which re-signs
/// the message and compares: the answer is exactly whether `sig` is the
/// signature of `message` under `secret`.
#[verifier::external_body]
pub fn hs256_verify(secret: &[u8], message: &[u8], sig: &[u8]) -> (r: bool)
    ensures
        r == (sig@ == hs256_sig(secret@, message@)),
{
    let sig_str = match std::str::from_utf8(sig) {
        Ok(s) => s,
        Err(_) => {
            return false;
        },
    };
    let key = jsonwebtoken::DecodingKey::from_secret(secret);
    match jsonwebtoken::crypto::verify(sig_str, message, &key, jsonwebtoken::Algorithm::HS256) {
        Ok(b) => b,
        Err(_) => false,
    }
}

/// The signed part of a token: base64url header, dot, base64url claims.
pub open spec fn jwt_message(c: ClaimsView) -> Seq<u8> {
    b64url_of(HEADER_JSON@) + seq![DOT] + b64url_of(claims_json(c))
}

/// A complete signed token: message, dot, signature.
pub open spec fn jwt_of(secret: Seq<u8>, c: ClaimsView) -> Seq<u8> {
    jwt_message(c) + seq![DOT] + hs256_sig(secret, jwt_message(c))
}

/// Reads a signed token: splits it at its first two dots, demands the
/// fixed header, checks the signature over the first two parts, decodes
/// the payload and reads the claims document.
pub open spec fn parse_jwt(secret: Seq<u8>, s: Seq<u8>) -> Option<ClaimsView> {
    match find_byte(s, DOT) {
        None => None,
        Some(i) => match find_byte(s.skip(i + 1), DOT) {
            None => None,
            Some(jrel) => {
                let j = i + 1 + jrel;
                let header = s.take(i);
                let message = s.take(j);
                let payload = s.subrange(i + 1, j);
                let sig = s.skip(j + 1);
                if header == b64url_of(HEADER_JSON@) && sig == hs256_sig(secret, message) {
                    match b64url_decoded(payload) {
                        None => None,
                        Some(doc) => parse_claims(doc),
                    }
                } else {
                    None
                }
            },
        },
    }
}

/// Builds the signed token for the claims.  The token it returns is one
/// that `parse_jwt` reads back to exactly these claims.
pub fn jwt_encode(secret: &[u8], c: &Claims) -> (r: Vec<u8>)
    ensures
        r@ == jwt_of(secret@, c@),
        parse_jwt(secret@, r@) == Some(c@),
{
    let doc = crate::claims::claims_json_bytes(c);
    let header_b64 = b64url_encode(HEADER_JSON.as_slice());
    let payload_b64 = b64url_encode(doc.as_slice());

    let mut message: Vec<u8> = Vec::new();
    crate::jsonenc::push_lit(&mut message, header_b64.as_slice());
    message.push(DOT);
    crate::jsonenc::push_lit(&mut message, payload_b64.as_slice());
    assert(message@ =~= jwt_message(c@));

    let sig = hs256_sign(secret, message.as_slice());
    let mut token: Vec<u8> = Vec::new();
    crate::jsonenc::push_lit(&mut token, message.as_slice());
    token.push(DOT);
    crate::jsonenc::push_lit(&mut token, sig.as_slice());
    assert(token@ =~= jwt_of(secret@, c@));

    proof {
        lemma_jwt_round_trip(secret@, c@);
    }
    token
}

/// A token built by `jwt_of` reads back to its own claims.  This holds
/// because the two encoded parts are dot-free, so the first two dots of
/// the token are the two separators.
proof fn lemma_jwt_round_trip(secret: Seq<u8>, c: ClaimsView)
    requires
        forall|k: int| 0 <= k < b64url_of(HEADER_JSON@).len() ==> b64url_of(HEADER_JSON@)[k]
            != DOT,
        forall|k: int|
            0 <= k < b64url_of(claims_json(c)).len() ==> b64url_of(claims_json(c))[k] != DOT,
        b64url_decoded(b64url_of(claims_json(c))) == Some(claims_json(c)),
    ensures
        parse_jwt(secret, jwt_of(secret, c)) == Some(c),
{
    let hb = b64url_of(HEADER_JSON@);
    let pb = b64url_of(claims_json(c));
    let msg = jwt_message(c);
    let sig = hs256_sig(secret, msg);
    let s = jwt_of(secret, c);

    let tail1 = seq![DOT] + (pb + (seq![DOT] + sig));
    assert(s =~= hb + tail1);
    lemma_find_byte_concat(hb, tail1, DOT);
    assert(find_byte(s, DOT) == Some(hb.len() as int));
    let i = hb.len() as int;

    let tail2 = seq![DOT] + sig;
    assert(s.skip(i + 1) =~= pb + tail2);
    lemma_find_byte_concat(pb, tail2, DOT);
    assert(find_byte(s.skip(i + 1), DOT) == Some(pb.len() as int));
    let j = i + 1 + pb.len() as int;

    assert(s.take(i) =~= hb);
    assert(s.take(j) =~= msg);
    assert(s.subrange(i + 1, j) =~= pb);
    assert(s.skip(j + 1) =~= sig);
    lemma_parse_claims_json(c);
}

/// Reads a signed token, yielding its claims exactly when `parse_jwt`
/// accepts it.
pub fn jwt_decode(secret: &[u8], s: &[u8]) -> (r: Option<Claims>)
    ensures
        match r {
            Some(c) => parse_jwt(secret@, s@) == Some(c@),
            None => parse_jwt(secret@, s@) is None,
        },
{
    let slen: usize = s.len();
    let i = match find_byte_from(s, 0, DOT) {
        None => {
            proof {
                assert(s@.skip(0) =~= s@);
            }
            return None;
        },
        Some(i) => {
            proof {
                assert(s@.skip(0) =~= s@);
            }
            i
        },
    };
    proof {
        assert(i < slen);
    }
    let j = match find_byte_from(s, i + 1, DOT) {
        None => {
            return None;
        },
        Some(j) => j,
    };
    proof {
        assert(find_byte(s@.skip(i + 1), DOT) == Some(j - (i + 1)));
    }

    // header must be the encoding of the fixed header
    let header_b64 = b64url_encode(HEADER_JSON.as_slice());
    if !slices_eq_range(s, 0, i, header_b64.as_slice()) {
        proof {
            assert(s@.subrange(0, i as int) =~= s@.take(i as int));
        }
        return None;
    }
    proof {
        assert(s@.subrange(0, i as int) =~= s@.take(i as int));
    }

    // the signature must cover the first two parts
    let message = slice_range_to_vec(s, 0, j);
    proof {
        assert(s@.subrange(0, j as int) =~= s@.take(j as int));
    }
    proof {
        assert(j < slen);
    }
    let sig = slice_range_to_vec(s, j + 1, s.len());
    proof {
        assert(s@.subrange(j + 1, s@.len() as int) =~= s@.skip(j + 1));
    }
    if !hs256_verify(secret, message.as_slice(), sig.as_slice()) {
        return None;
    }

    let payload = slice_range_to_vec(s, i + 1, j);
    let doc = match b64url_decode(payload.as_slice()) {
        None => {
            return None;
        },
        Some(d) => d,
    };
    crate::claims::parse_claims_bytes(doc.as_slice())
}

/// Copies `s[from..to]` into a fresh vector.
fn slice_range_to_vec(s: &[u8], from: usize, to: usize) -> (r: Vec<u8>)
    requires
        from <= to <= s@.len(),
    ensures
        r@ == s@.subrange(from as int, to as int),
{
    let mut out: Vec<u8> = Vec::new();
    let mut k: usize = from;
    while k < to
        invariant
            from <= k <= to <= s@.len(),
            out@ == s@.subrange(from as int, k as int),
        decreases to - k,
    {
        out.push(s[k]);
        assert(s@.subrange(from as int, k + 1 as int) =~= s@.subrange(from as int, k as int).push(
            s@[k as int],
        ));
        k = k + 1;
    }
    out
}

/// Does `s[from..to]` equal `other`?
fn slices_eq_range(s: &[u8], from: usize, to: usize, other: &[u8]) -> (r: bool)
    requires
        from <= to <= s@.len(),
    ensures
        r == (s@.subrange(from as int, to as int) == other@),
{
    if to - from != other.len() {
        proof {
            assert(s@.subrange(from as int, to as int).len() == to - from);
        }
        return false;
    }
    let mut k: usize = 0;
    while k < other.len()
        invariant
            k <= other@.len(),
            to - from == other@.len(),
            from <= to <= s@.len(),
            forall|t: int| 0 <= t < k ==> s@[from + t] == other@[t],
        decreases other.len() - k,
    {
        if s[from + k] != other[k] {
            assert(s@.subrange(from as int, to as int)[k as int] != other@[k as int]);
            return false;
        }
        k = k + 1;
    }
    assert(s@.subrange(from as int, to as int) =~= other@);
    true
}

} // verus!
