//! Session claims and their canonical JSON form.
//!
//! A token carries five claims: audience (the user id as a string),
//! expiry delta in seconds, issue time in unix seconds, issuer, and
//! subject (the user's email, possibly empty).  The expiry claim is a
//! delta, not an absolute time: the absolute expiry is recomputed as
//! `iat + exp` wherever a token is checked.
use crate::jsonenc::{
    begins_with, begins_with_at, dec_of, find_byte, find_byte_from, json_escape,
    lemma_dec_of_digits, lemma_find_byte_concat, lemma_parse_dec_of, lemma_scan_escaped,
    parse_u64, parse_u64_range, push_escaped, push_lit, push_u64, scan_jstring,
    scan_jstring_into, COMMA, QUOTE,
};
use vstd::prelude::*;

verus! {

/// `{"aud":"`
pub const LIT_AUD: [u8; 8] = [123u8, 34u8, 97u8, 117u8, 100u8, 34u8, 58u8, 34u8];

/// `,"exp":` — follows the quote that closes the audience string.
pub const LIT_EXP: [u8; 7] = [44u8, 34u8, 101u8, 120u8, 112u8, 34u8, 58u8];

/// `,"iat":`
pub const LIT_IAT: [u8; 7] = [44u8, 34u8, 105u8, 97u8, 116u8, 34u8, 58u8];

/// `,"iss":"`
pub const LIT_ISS: [u8; 8] = [44u8, 34u8, 105u8, 115u8, 115u8, 34u8, 58u8, 34u8];

/// `,"sub":"` — follows the quote that closes the issuer string.
pub const LIT_SUB: [u8; 8] = [44u8, 34u8, 115u8, 117u8, 98u8, 34u8, 58u8, 34u8];

/// ASCII closing brace.
pub const RBRACE: u8 = 125;

/// The claims signed into a session token.  String-valued claims are
/// held as their UTF-8 bytes: the token pipeline works on raw bytes
/// from the JSON layer down to the cipher.
#[derive(Debug)]
pub struct Claims {
    /// Audience: the user id, written in decimal.
    pub aud: Vec<u8>,
    /// Expiry delta in seconds, counted from `iat`.
    pub exp: u64,
    /// Issue time, unix seconds.
    pub iat: u64,
    /// Issuer: the fixed service name.
    pub iss: Vec<u8>,
    /// Subject: the user's email, or empty.
    pub sub: Vec<u8>,
}

pub ghost struct ClaimsView {
    pub aud: Seq<u8>,
    pub exp: u64,
    pub iat: u64,
    pub iss: Seq<u8>,
    pub sub: Seq<u8>,
}

impl View for Claims {
    type V = ClaimsView;

    open spec fn view(&self) -> ClaimsView {
        ClaimsView {
            aud: self.aud@,
            exp: self.exp,
            iat: self.iat,
            iss: self.iss@,
            sub: self.sub@,
        }
    }
}

/// An escaped string claim followed by its closing quote and the rest of
/// the document.
pub open spec fn str_field(x: Seq<u8>, rest: Seq<u8>) -> Seq<u8> {
    json_escape(x) + (seq![QUOTE] + rest)
}

/// A decimal number claim followed by the rest of the document.
pub open spec fn num_field(n: u64, rest: Seq<u8>) -> Seq<u8> {
    dec_of(n) + rest
}

/// The canonical JSON serialization of the claims, with the fields in
/// the fixed order aud, exp, iat, iss, sub.
pub open spec fn claims_json(c: ClaimsView) -> Seq<u8> {
    LIT_AUD@ + str_field(
        c.aud,
        LIT_EXP@ + num_field(
            c.exp,
            LIT_IAT@ + num_field(
                c.iat,
                LIT_ISS@ + str_field(c.iss, LIT_SUB@ + str_field(c.sub, seq![RBRACE])),
            ),
        ),
    )
}

/// Strict reading of the canonical claims document.  Accepts a document
/// if and only if it has the exact field order and layout written by
/// `claims_json`, up to the escape choices the scanner admits.
pub open spec fn parse_claims(s: Seq<u8>) -> Option<ClaimsView> {
    if !begins_with(s, LIT_AUD@) {
        None
    } else {
        let s1 = s.skip(LIT_AUD@.len() as int);
        match scan_jstring(s1) {
            None => None,
            Some(aud_p) => {
                let s2 = s1.skip(aud_p.1);
                if !begins_with(s2, LIT_EXP@) {
                    None
                } else {
                    let s3 = s2.skip(LIT_EXP@.len() as int);
                    match find_byte(s3, COMMA) {
                        None => None,
                        Some(m1) => match parse_u64(s3.take(m1)) {
                            None => None,
                            Some(exp) => {
                                let s4 = s3.skip(m1);
                                if !begins_with(s4, LIT_IAT@) {
                                    None
                                } else {
                                    let s5 = s4.skip(LIT_IAT@.len() as int);
                                    match find_byte(s5, COMMA) {
                                        None => None,
                                        Some(m2) => match parse_u64(s5.take(m2)) {
                                            None => None,
                                            Some(iat) => parse_claims_tail(
                                                s5.skip(m2),
                                                aud_p.0,
                                                exp,
                                                iat,
                                            ),
                                        },
                                    }
                                }
                            },
                        },
                    }
                }
            },
        }
    }
}

/// Continues `parse_claims` after the iat claim: issuer, subject, and
/// the closing brace.
pub open spec fn parse_claims_tail(s6: Seq<u8>, aud: Seq<u8>, exp: u64, iat: u64) -> Option<
    ClaimsView,
> {
    if !begins_with(s6, LIT_ISS@) {
        None
    } else {
        let s7 = s6.skip(LIT_ISS@.len() as int);
        match scan_jstring(s7) {
            None => None,
            Some(iss_p) => {
                let s8 = s7.skip(iss_p.1);
                if !begins_with(s8, LIT_SUB@) {
                    None
                } else {
                    let s9 = s8.skip(LIT_SUB@.len() as int);
                    match scan_jstring(s9) {
                        None => None,
                        Some(sub_p) => {
                            let s10 = s9.skip(sub_p.1);
                            if s10 == seq![RBRACE] {
                                Some(
                                    ClaimsView {
                                        aud: aud,
                                        exp: exp,
                                        iat: iat,
                                        iss: iss_p.0,
                                        sub: sub_p.0,
                                    },
                                )
                            } else {
                                None
                            }
                        },
                    }
                }
            },
        }
    }
}

// ---------------------------------------------------------------------
// Round-trip helper lemmas
// ---------------------------------------------------------------------
/// Stripping a literal prefix from a document that carries it.
proof fn lemma_strip_lit(lit: Seq<u8>, rest: Seq<u8>)
    ensures
        begins_with(lit + rest, lit),
        (lit + rest).skip(lit.len() as int) == rest,
{
    assert((lit + rest).take(lit.len() as int) =~= lit);
    assert((lit + rest).skip(lit.len() as int) =~= rest);
}

/// Scanning a string field yields its content and leaves the rest.
proof fn lemma_scan_str_field(x: Seq<u8>, rest: Seq<u8>)
    ensures
        scan_jstring(str_field(x, rest)) == Some((x, json_escape(x).len() + 1 as int)),
        str_field(x, rest).skip(json_escape(x).len() + 1 as int) == rest,
{
    assert(str_field(x, rest) =~= json_escape(x) + seq![QUOTE] + rest);
    lemma_scan_escaped(x, rest);
    assert(str_field(x, rest).skip(json_escape(x).len() + 1 as int) =~= rest);
}

/// Reading a number field that is followed by a comma yields the number
/// and leaves the rest.
proof fn lemma_scan_num_field(n: u64, rest: Seq<u8>)
    requires
        rest.len() > 0,
        rest[0] == COMMA,
    ensures
        find_byte(num_field(n, rest), COMMA) == Some(dec_of(n).len() as int),
        parse_u64(num_field(n, rest).take(dec_of(n).len() as int)) == Some(n),
        num_field(n, rest).skip(dec_of(n).len() as int) == rest,
{
    lemma_dec_of_digits(n);
    lemma_find_byte_concat(dec_of(n), rest, COMMA);
    lemma_parse_dec_of(n);
    assert(num_field(n, rest).take(dec_of(n).len() as int) =~= dec_of(n));
    assert(num_field(n, rest).skip(dec_of(n).len() as int) =~= rest);
}

/// The strict reader inverts the canonical serialization.
#[verifier::rlimit(100)]
pub proof fn lemma_parse_claims_json(c: ClaimsView)
    ensures
        parse_claims(claims_json(c)) == Some(c),
{
    let r5 = seq![RBRACE];
    let f_sub = str_field(c.sub, r5);
    let r4 = LIT_SUB@ + f_sub;
    let f_iss = str_field(c.iss, r4);
    let r3 = LIT_ISS@ + f_iss;
    let f_iat = num_field(c.iat, r3);
    let r2 = LIT_IAT@ + f_iat;
    let f_exp = num_field(c.exp, r2);
    let r1 = LIT_EXP@ + f_exp;
    let f_aud = str_field(c.aud, r1);
    let s = claims_json(c);
    assert(s == LIT_AUD@ + f_aud);

    lemma_strip_lit(LIT_AUD@, f_aud);
    let s1 = s.skip(LIT_AUD@.len() as int);
    assert(s1 == f_aud);
    lemma_scan_str_field(c.aud, r1);
    let s2 = s1.skip(json_escape(c.aud).len() + 1 as int);
    assert(s2 == r1);

    lemma_strip_lit(LIT_EXP@, f_exp);
    let s3 = s2.skip(LIT_EXP@.len() as int);
    assert(s3 == f_exp);
    assert(r2[0] == COMMA);
    lemma_scan_num_field(c.exp, r2);
    let s4 = s3.skip(dec_of(c.exp).len() as int);
    assert(s4 == r2);

    lemma_strip_lit(LIT_IAT@, f_iat);
    let s5 = s4.skip(LIT_IAT@.len() as int);
    assert(s5 == f_iat);
    assert(r3[0] == COMMA);
    lemma_scan_num_field(c.iat, r3);
    let s6 = s5.skip(dec_of(c.iat).len() as int);
    assert(s6 == r3);

    lemma_strip_lit(LIT_ISS@, f_iss);
    let s7 = s6.skip(LIT_ISS@.len() as int);
    assert(s7 == f_iss);
    lemma_scan_str_field(c.iss, r4);
    let s8 = s7.skip(json_escape(c.iss).len() + 1 as int);
    assert(s8 == r4);

    lemma_strip_lit(LIT_SUB@, f_sub);
    let s9 = s8.skip(LIT_SUB@.len() as int);
    assert(s9 == f_sub);
    lemma_scan_str_field(c.sub, r5);
    let s10 = s9.skip(json_escape(c.sub).len() + 1 as int);
    assert(s10 == r5);

    assert(parse_claims_tail(s6, c.aud, c.exp, c.iat) == Some(c));
}

// ---------------------------------------------------------------------
// Executable builder and reader
// ---------------------------------------------------------------------
/// Writes the canonical JSON document for the claims.
#[verifier::rlimit(100)]
pub fn claims_json_bytes(c: &Claims) -> (r: Vec<u8>)
    ensures
        r@ == claims_json(c@),
{
    let mut out: Vec<u8> = Vec::new();
    push_lit(&mut out, LIT_AUD.as_slice());
    push_escaped(&mut out, c.aud.as_slice());
    out.push(QUOTE);
    push_lit(&mut out, LIT_EXP.as_slice());
    push_u64(&mut out, c.exp);
    push_lit(&mut out, LIT_IAT.as_slice());
    push_u64(&mut out, c.iat);
    push_lit(&mut out, LIT_ISS.as_slice());
    push_escaped(&mut out, c.iss.as_slice());
    out.push(QUOTE);
    push_lit(&mut out, LIT_SUB.as_slice());
    push_escaped(&mut out, c.sub.as_slice());
    out.push(QUOTE);
    out.push(RBRACE);
    proof {
        assert(out@ =~= claims_json(c@));
    }
    out
}

/// Strict reader for the canonical claims document.
pub fn parse_claims_bytes(s: &[u8]) -> (r: Option<Claims>)
    ensures
        match r {
            Some(c) => parse_claims(s@) == Some(c@),
            None => parse_claims(s@) is None,
        },
{
    let slen: usize = s.len();
    if !begins_with_at(s, 0, LIT_AUD.as_slice()) {
        proof {
            assert(s@.skip(0) =~= s@);
        }
        return None;
    }
    proof {
        assert(s@.skip(0) =~= s@);
    }
    let i1: usize = 8;
    let ghost sp1 = s@.skip(i1 as int);

    let mut aud: Vec<u8> = Vec::new();
    let r_aud = scan_jstring_into(s, i1, &mut aud);
    let i2: usize;
    match r_aud {
        None => {
            return None;
        },
        Some(j) => {
            i2 = j;
        },
    }
    proof {
        let p = scan_jstring(sp1).unwrap();
        assert(aud@.skip(0) =~= aud@);
        assert(p.0 == aud@);
        assert(sp1.skip(p.1) =~= s@.skip(i2 as int));
    }
    let ghost sp2 = s@.skip(i2 as int);

    if !begins_with_at(s, i2, LIT_EXP.as_slice()) {
        return None;
    }
    proof {
        assert(LIT_EXP@.len() <= sp2.len());
        assert(sp2.len() + (LIT_EXP@.len() as int) <= slen + (LIT_EXP@.len() as int));
    }
    let i3: usize = i2 + 7;
    let ghost sp3 = s@.skip(i3 as int);
    proof {
        assert(sp2.skip(LIT_EXP@.len() as int) =~= sp3);
    }

    let m1 = match find_byte_from(s, i3, COMMA) {
        None => {
            return None;
        },
        Some(m) => m,
    };
    let exp = match parse_u64_range(s, i3, m1) {
        None => {
            proof {
                assert(s@.subrange(i3 as int, m1 as int) =~= sp3.take(m1 - i3));
            }
            return None;
        },
        Some(v) => {
            proof {
                assert(s@.subrange(i3 as int, m1 as int) =~= sp3.take(m1 - i3));
            }
            v
        },
    };
    let ghost sp4 = s@.skip(m1 as int);
    proof {
        assert(sp3.skip(m1 - i3) =~= sp4);
    }

    if !begins_with_at(s, m1, LIT_IAT.as_slice()) {
        return None;
    }
    proof {
        assert(LIT_IAT@.len() <= sp4.len());
        assert(sp4.len() + (LIT_IAT@.len() as int) <= slen + (LIT_IAT@.len() as int));
    }
    let i5: usize = m1 + 7;
    let ghost sp5 = s@.skip(i5 as int);
    proof {
        assert(sp4.skip(LIT_IAT@.len() as int) =~= sp5);
    }

    let m2 = match find_byte_from(s, i5, COMMA) {
        None => {
            return None;
        },
        Some(m) => m,
    };
    let iat = match parse_u64_range(s, i5, m2) {
        None => {
            proof {
                assert(s@.subrange(i5 as int, m2 as int) =~= sp5.take(m2 - i5));
            }
            return None;
        },
        Some(v) => {
            proof {
                assert(s@.subrange(i5 as int, m2 as int) =~= sp5.take(m2 - i5));
            }
            v
        },
    };
    let ghost sp6 = s@.skip(m2 as int);
    proof {
        assert(sp5.skip(m2 - i5) =~= sp6);
        assert(parse_claims(s@) == parse_claims_tail(sp6, aud@, exp, iat));
    }
    parse_claims_tail_bytes(s, m2, aud, exp, iat)
}

/// Reads the issuer and subject claims and the closing brace, finishing
/// the document that `parse_claims_bytes` began.
fn parse_claims_tail_bytes(s: &[u8], m2: usize, aud: Vec<u8>, exp: u64, iat: u64) -> (r: Option<
    Claims,
>)
    requires
        m2 <= s@.len(),
    ensures
        match r {
            Some(c) => parse_claims_tail(s@.skip(m2 as int), aud@, exp, iat) == Some(c@),
            None => parse_claims_tail(s@.skip(m2 as int), aud@, exp, iat) is None,
        },
{
    let slen: usize = s.len();
    let ghost sp6 = s@.skip(m2 as int);

    if !begins_with_at(s, m2, LIT_ISS.as_slice()) {
        return None;
    }
    proof {
        assert(LIT_ISS@.len() <= sp6.len());
        assert(sp6.len() + (LIT_ISS@.len() as int) <= slen + (LIT_ISS@.len() as int));
    }
    let i7: usize = m2 + 8;
    let ghost sp7 = s@.skip(i7 as int);
    proof {
        assert(sp6.skip(LIT_ISS@.len() as int) =~= sp7);
    }

    let mut iss: Vec<u8> = Vec::new();
    let r_iss = scan_jstring_into(s, i7, &mut iss);
    let i8: usize;
    match r_iss {
        None => {
            return None;
        },
        Some(j) => {
            i8 = j;
        },
    }
    proof {
        let p = scan_jstring(sp7).unwrap();
        assert(iss@.skip(0) =~= iss@);
        assert(p.0 == iss@);
        assert(sp7.skip(p.1) =~= s@.skip(i8 as int));
    }
    let ghost sp8 = s@.skip(i8 as int);

    if !begins_with_at(s, i8, LIT_SUB.as_slice()) {
        return None;
    }
    proof {
        assert(LIT_SUB@.len() <= sp8.len());
        assert(sp8.len() + (LIT_SUB@.len() as int) <= slen + (LIT_SUB@.len() as int));
    }
    let i9: usize = i8 + 8;
    let ghost sp9 = s@.skip(i9 as int);
    proof {
        assert(sp8.skip(LIT_SUB@.len() as int) =~= sp9);
    }

    let mut sub: Vec<u8> = Vec::new();
    let r_sub = scan_jstring_into(s, i9, &mut sub);
    let i10: usize;
    match r_sub {
        None => {
            return None;
        },
        Some(j) => {
            i10 = j;
        },
    }
    proof {
        let p = scan_jstring(sp9).unwrap();
        assert(sub@.skip(0) =~= sub@);
        assert(p.0 == sub@);
        assert(sp9.skip(p.1) =~= s@.skip(i10 as int));
    }
    let ghost sp10 = s@.skip(i10 as int);

    if s.len() - i10 == 1 && s[i10] == RBRACE {
        proof {
            assert(sp10 =~= seq![RBRACE]);
        }
        Some(Claims { aud, exp, iat, iss, sub })
    } else {
        proof {
            if sp10 == seq![RBRACE] {
                assert(sp10.len() == 1);
                assert(sp10[0] == RBRACE);
                assert(s@[i10 as int] == sp10[0]);
            }
        }
        None
    }
}

} // verus!
