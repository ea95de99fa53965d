//! Byte-level building blocks for the canonical JSON form of session
//! claims: string escaping, decimal numbers, and the strict scanners that
//! read them back, together with round-trip lemmas.
use vstd::prelude::*;

verus! {

/// ASCII double quote.
pub const QUOTE: u8 = 34;
/// ASCII backslash.
pub const BACKSLASH: u8 = 92;
/// ASCII comma.
pub const COMMA: u8 = 44;

pub open spec fn is_digit(b: u8) -> bool {
    48 <= b <= 57
}

/// Lower-case hex digit for a nibble.
pub open spec fn spec_hex_char(n: u8) -> u8
    recommends
        n < 16,
{
    if n < 10 {
        (48 + n) as u8
    } else {
        (87 + n) as u8
    }
}

pub open spec fn is_hex(b: u8) -> bool {
    (48 <= b <= 57) || (97 <= b <= 102) || (65 <= b <= 70)
}

pub open spec fn hex_val(b: u8) -> u8 {
    if 48 <= b <= 57 {
        (b - 48) as u8
    } else if 97 <= b <= 102 {
        (b - 87) as u8
    } else {
        (b - 55) as u8
    }
}

/// How one byte of string content is written inside a JSON string:
/// quote and backslash are escaped, control bytes become `\u00XX`,
/// everything else stands as itself.
pub open spec fn escape_byte(b: u8) -> Seq<u8> {
    if b == QUOTE {
        seq![BACKSLASH, QUOTE]
    } else if b == BACKSLASH {
        seq![BACKSLASH, BACKSLASH]
    } else if b < 32 {
        seq![BACKSLASH, 117u8, 48u8, 48u8, spec_hex_char(b / 16), spec_hex_char(b % 16)]
    } else {
        seq![b]
    }
}

/// JSON string-content encoding of a byte string.
pub open spec fn json_escape(s: Seq<u8>) -> Seq<u8>
    decreases s.len(),
{
    if s.len() == 0 {
        Seq::empty()
    } else {
        escape_byte(s[0]) + json_escape(s.skip(1))
    }
}

pub broadcast proof fn lemma_json_escape_push(s: Seq<u8>, b: u8)
    ensures
        #[trigger] json_escape(s.push(b)) == json_escape(s) + escape_byte(b),
    decreases s.len(),
{
    if s.len() == 0 {
        assert(s.push(b)[0] == b);
        assert(s.push(b).skip(1) =~= Seq::<u8>::empty());
        assert(json_escape(Seq::<u8>::empty()) =~= Seq::<u8>::empty());
        assert(json_escape(s.push(b)) =~= escape_byte(b) + json_escape(s.push(b).skip(1)));
        assert(json_escape(s.push(b)) =~= json_escape(s) + escape_byte(b));
    } else {
        assert(s.push(b)[0] == s[0]);
        assert(s.push(b).skip(1) =~= s.skip(1).push(b));
        lemma_json_escape_push(s.skip(1), b);
        assert(json_escape(s.push(b)) =~= json_escape(s) + escape_byte(b));
    }
}

/// Canonical decimal digits of an unsigned number, most significant first.
pub open spec fn dec_of(n: u64) -> Seq<u8>
    decreases n,
{
    if n < 10 {
        seq![(48 + n) as u8]
    } else {
        dec_of(n / 10).push((48 + n % 10) as u8)
    }
}

pub proof fn lemma_dec_of_digits(n: u64)
    ensures
        dec_of(n).len() >= 1,
        forall|i: int| 0 <= i < dec_of(n).len() ==> is_digit(#[trigger] dec_of(n)[i]),
    decreases n,
{
    if n >= 10 {
        lemma_dec_of_digits(n / 10);
    }
}

/// Value of an exact digit string, rejecting anything that is not a digit
/// or does not fit in 64 bits.
pub open spec fn parse_u64(s: Seq<u8>) -> Option<u64>
    decreases s.len(),
{
    if s.len() == 0 {
        None
    } else if s.len() == 1 {
        if is_digit(s[0]) {
            Some((s[0] - 48) as u64)
        } else {
            None
        }
    } else {
        match parse_u64(s.drop_last()) {
            Some(v) => {
                if is_digit(s.last()) && v * 10 + (s.last() - 48) <= u64::MAX {
                    Some((v * 10 + (s.last() - 48)) as u64)
                } else {
                    None
                }
            },
            None => None,
        }
    }
}

/// Reading back the canonical decimal form gives the number itself.
pub proof fn lemma_parse_dec_of(n: u64)
    ensures
        parse_u64(dec_of(n)) == Some(n),
    decreases n,
{
    if n < 10 {
    } else {
        lemma_parse_dec_of(n / 10);
        lemma_dec_of_digits(n / 10);
        let s = dec_of(n);
        assert(s.drop_last() =~= dec_of(n / 10));
        assert(s.last() == (48 + n % 10) as u8);
        assert((n / 10) * 10 + n % 10 == n) by (nonlinear_arith);
    }
}

/// Index of the first occurrence of a byte.
pub open spec fn find_byte(s: Seq<u8>, b: u8) -> Option<int>
    decreases s.len(),
{
    if s.len() == 0 {
        None
    } else if s[0] == b {
        Some(0)
    } else {
        match find_byte(s.skip(1), b) {
            Some(i) => Some(i + 1),
            None => None,
        }
    }
}

/// In a concatenation whose first part is free of `b` and whose second
/// part starts with `b`, the first occurrence is exactly at the seam.
pub proof fn lemma_find_byte_concat(pre: Seq<u8>, post: Seq<u8>, b: u8)
    requires
        forall|i: int| 0 <= i < pre.len() ==> pre[i] != b,
        post.len() > 0,
        post[0] == b,
    ensures
        find_byte(pre + post, b) == Some(pre.len() as int),
    decreases pre.len(),
{
    let s = pre + post;
    if pre.len() == 0 {
        assert(s =~= post);
    } else {
        assert(s[0] == pre[0]);
        assert(s.skip(1) =~= pre.skip(1) + post);
        lemma_find_byte_concat(pre.skip(1), post, b);
    }
}

/// Reads JSON string content up to and including the closing quote.
/// Returns the decoded content and the number of bytes consumed.
pub open spec fn scan_jstring(s: Seq<u8>) -> Option<(Seq<u8>, int)>
    decreases s.len(),
{
    if s.len() == 0 {
        None
    } else if s[0] == QUOTE {
        Some((Seq::empty(), 1))
    } else if s[0] == BACKSLASH {
        if s.len() >= 2 && (s[1] == QUOTE || s[1] == BACKSLASH) {
            match scan_jstring(s.skip(2)) {
                Some(p) => Some((seq![s[1]] + p.0, p.1 + 2)),
                None => None,
            }
        } else if s.len() >= 6 && s[1] == 117 && s[2] == 48 && s[3] == 48 && is_hex(s[4]) && is_hex(
            s[5],
        ) && hex_val(s[4]) < 2 {
            match scan_jstring(s.skip(6)) {
                Some(p) => Some((seq![(hex_val(s[4]) * 16 + hex_val(s[5])) as u8] + p.0, p.1 + 6)),
                None => None,
            }
        } else {
            None
        }
    } else if s[0] >= 32 {
        match scan_jstring(s.skip(1)) {
            Some(p) => Some((seq![s[0]] + p.0, p.1 + 1)),
            None => None,
        }
    } else {
        None
    }
}

/// Scanning an escaped byte string followed by its closing quote yields
/// the original bytes and stops right after the quote.
pub proof fn lemma_scan_escaped(x: Seq<u8>, rest: Seq<u8>)
    ensures
        scan_jstring(json_escape(x) + seq![QUOTE] + rest) == Some(
            (x, json_escape(x).len() + 1 as int),
        ),
    decreases x.len(),
{
    let s = json_escape(x) + seq![QUOTE] + rest;
    if x.len() == 0 {
        assert(json_escape(x) =~= Seq::<u8>::empty());
        assert(s[0] == QUOTE);
        assert(scan_jstring(s) == Some((Seq::<u8>::empty(), 1 as int)));
        assert(x =~= Seq::<u8>::empty());
    } else {
        let b = x[0];
        let tail = x.skip(1);
        lemma_scan_escaped(tail, rest);
        assert(json_escape(x) =~= escape_byte(b) + json_escape(tail));
        let inner = json_escape(tail) + seq![QUOTE] + rest;
        if b == QUOTE {
            assert(s[0] == BACKSLASH && s[1] == QUOTE);
            assert(s.skip(2) =~= inner);
            assert(seq![s[1]] + tail =~= x);
        } else if b == BACKSLASH {
            assert(s[0] == BACKSLASH && s[1] == BACKSLASH);
            assert(s.skip(2) =~= inner);
            assert(seq![s[1]] + tail =~= x);
        } else if b < 32 {
            assert(s[0] == BACKSLASH && s[1] == 117 && s[2] == 48 && s[3] == 48);
            assert(s[4] == spec_hex_char(b / 16) && s[5] == spec_hex_char(b % 16));
            assert(is_hex(s[4]) && hex_val(s[4]) == b / 16 && hex_val(s[4]) < 2);
            assert(is_hex(s[5]) && hex_val(s[5]) == b % 16);
            assert(s.skip(6) =~= inner);
            assert((hex_val(s[4]) * 16 + hex_val(s[5])) as u8 == b);
            assert(seq![(hex_val(s[4]) * 16 + hex_val(s[5])) as u8] + tail =~= x);
        } else {
            assert(s[0] == b && b >= 32 && b != QUOTE && b != BACKSLASH);
            assert(s.skip(1) =~= inner);
            assert(seq![s[0]] + tail =~= x);
        }
    }
}

/// Is `p` a prefix of `s`?
pub open spec fn begins_with(s: Seq<u8>, p: Seq<u8>) -> bool {
    p.len() <= s.len() && s.take(p.len() as int) == p
}

// ---------------------------------------------------------------------
// Executable builders
// ---------------------------------------------------------------------
/// Appends a literal byte sequence.
pub fn push_lit(out: &mut Vec<u8>, lit: &[u8])
    ensures
        final(out)@ == old(out)@ + lit@,
{
    let mut i: usize = 0;
    while i < lit.len()
        invariant
            i <= lit.len(),
            out@ == old(out)@ + lit@.take(i as int),
        decreases lit.len() - i,
    {
        out.push(lit[i]);
        assert(lit@.take(i + 1 as int) =~= lit@.take(i as int).push(lit@[i as int]));
        i = i + 1;
    }
    assert(lit@.take(lit@.len() as int) =~= lit@);
}

/// Lower-case hex digit of a nibble.
fn hex_char(n: u8) -> (r: u8)
    requires
        n < 16,
    ensures
        r == spec_hex_char(n),
{
    if n < 10 {
        48 + n
    } else {
        87 + n
    }
}

/// Appends the JSON string-content encoding of `s`.
pub fn push_escaped(out: &mut Vec<u8>, s: &[u8])
    ensures
        final(out)@ == old(out)@ + json_escape(s@),
{
    let mut i: usize = 0;
    while i < s.len()
        invariant
            i <= s.len(),
            out@ == old(out)@ + json_escape(s@.take(i as int)),
        decreases s.len() - i,
    {
        let b = s[i];
        if b == QUOTE {
            out.push(BACKSLASH);
            out.push(QUOTE);
        } else if b == BACKSLASH {
            out.push(BACKSLASH);
            out.push(BACKSLASH);
        } else if b < 32 {
            out.push(BACKSLASH);
            out.push(117);
            out.push(48);
            out.push(48);
            out.push(hex_char(b / 16));
            out.push(hex_char(b % 16));
        } else {
            out.push(b);
        }
        proof {
            lemma_json_escape_push(s@.take(i as int), b);
            assert(s@.take(i + 1 as int) =~= s@.take(i as int).push(s@[i as int]));
            assert(out@ =~= old(out)@ + json_escape(s@.take(i + 1 as int)));
        }
        i = i + 1;
    }
    assert(s@.take(s@.len() as int) =~= s@);
}

/// Appends the canonical decimal digits of `n`.
pub fn push_u64(out: &mut Vec<u8>, n: u64)
    ensures
        final(out)@ == old(out)@ + dec_of(n),
    decreases n,
{
    if n < 10 {
        out.push(48 + (n as u8));
    } else {
        assert(n / 10 < n) by (nonlinear_arith)
            requires
                n >= 10,
        ;
        push_u64(out, n / 10);
        out.push(48 + ((n % 10) as u8));
    }
}

// ---------------------------------------------------------------------
// Executable scanners
// ---------------------------------------------------------------------
/// Does `s` carry `lit` starting at position `i`?
pub fn begins_with_at(s: &[u8], i: usize, lit: &[u8]) -> (r: bool)
    requires
        i <= s@.len(),
    ensures
        r == begins_with(s@.skip(i as int), lit@),
{
    if s.len() - i < lit.len() {
        return false;
    }
    let mut j: usize = 0;
    while j < lit.len()
        invariant
            j <= lit.len(),
            i + lit.len() <= s.len(),
            forall|k: int| 0 <= k < j ==> s@[i + k] == lit@[k],
        decreases lit.len() - j,
    {
        if s[i + j] != lit[j] {
            assert(s@.skip(i as int).take(lit@.len() as int)[j as int] != lit@[j as int]);
            return false;
        }
        j = j + 1;
    }
    assert(s@.skip(i as int).take(lit@.len() as int) =~= lit@);
    true
}

/// Value of the exact digit string `s[from..to]`.
pub fn parse_u64_range(s: &[u8], from: usize, to: usize) -> (r: Option<u64>)
    requires
        from <= to <= s@.len(),
    ensures
        r == parse_u64(s@.subrange(from as int, to as int)),
    decreases to - from,
{
    let part = Ghost(s@.subrange(from as int, to as int));
    if from == to {
        assert(part@.len() == 0);
        return None;
    }
    let last = s[to - 1];
    assert(part@.last() == last);
    if to - from == 1 {
        if 48 <= last && last <= 57 {
            Some((last - 48) as u64)
        } else {
            None
        }
    } else {
        let head = parse_u64_range(s, from, to - 1);
        assert(s@.subrange(from as int, to - 1 as int) =~= part@.drop_last());
        match head {
            Some(v) => {
                if 48 <= last && last <= 57 {
                    let d = (last - 48) as u64;
                    if v <= (u64::MAX - d) / 10 {
                        assert(v * 10 + d <= u64::MAX) by (nonlinear_arith)
                            requires
                                v <= (u64::MAX - d) / 10,
                                d <= 9,
                        ;
                        Some(v * 10 + d)
                    } else {
                        assert(v * 10 + d > u64::MAX) by (nonlinear_arith)
                            requires
                                v > (u64::MAX - d) / 10,
                                d <= 9,
                        ;
                        None
                    }
                } else {
                    None
                }
            },
            None => None,
        }
    }
}

/// First position of `b` in `s` at or after `from`.
pub fn find_byte_from(s: &[u8], from: usize, b: u8) -> (r: Option<usize>)
    requires
        from <= s@.len(),
    ensures
        match r {
            Some(i) => {
                &&& from <= i < s@.len()
                &&& find_byte(s@.skip(from as int), b) == Some(i - from)
            },
            None => find_byte(s@.skip(from as int), b) is None,
        },
    decreases s@.len() - from,
{
    if from == s.len() {
        return None;
    }
    if s[from] == b {
        return Some(from);
    }
    let rec = find_byte_from(s, from + 1, b);
    assert(s@.skip(from as int).skip(1) =~= s@.skip(from + 1 as int));
    match rec {
        Some(i) => Some(i),
        None => None,
    }
}

/// Reads JSON string content starting at `i`, appending the decoded bytes
/// to `out`; returns the position right after the closing quote.
pub fn scan_jstring_into(s: &[u8], i: usize, out: &mut Vec<u8>) -> (r: Option<usize>)
    requires
        i <= s@.len(),
    ensures
        match r {
            Some(j) => {
                &&& i < j <= s@.len()
                &&& old(out)@.len() <= final(out)@.len()
                &&& scan_jstring(s@.skip(i as int)) matches Some(p) && p.0 == final(out)@.skip(
                    old(out)@.len() as int,
                ) && p.1 == j - i
                &&& final(out)@.take(old(out)@.len() as int) == old(out)@
            },
            None => scan_jstring(s@.skip(i as int)) is None,
        },
    decreases s@.len() - i,
{
    let suffix = Ghost(s@.skip(i as int));
    if i == s.len() {
        return None;
    }
    let b = s[i];
    assert(suffix@[0] == b);
    if b == QUOTE {
        assert(out@.skip(out@.len() as int) =~= Seq::<u8>::empty());
        assert(out@.take(out@.len() as int) =~= out@);
        return Some(i + 1);
    }
    if b == BACKSLASH {
        if s.len() - i >= 2 && (s[i + 1] == QUOTE || s[i + 1] == BACKSLASH) {
            let c = s[i + 1];
            assert(suffix@.len() >= 2 && suffix@[1] == c);
            out.push(c);
            let mid = Ghost(out@);
            let rec = scan_jstring_into(s, i + 2, out);
            assert(suffix@.skip(2) =~= s@.skip(i + 2 as int));
            match rec {
                Some(j) => {
                    proof {
                        let p = scan_jstring(s@.skip(i + 2 as int)).unwrap();
                        assert(out@ =~= out@.take(mid@.len() as int) + out@.skip(mid@.len() as int));
                        assert(out@ =~= old(out)@ + seq![c] + p.0);
                        assert(out@.skip(old(out)@.len() as int) =~= seq![c] + p.0);
                        assert(out@.take(old(out)@.len() as int) =~= old(out)@);
                    }
                    Some(j)
                },
                None => None,
            }
        } else if s.len() - i >= 6 && s[i + 1] == 117 && s[i + 2] == 48 && s[i + 3] == 48
            && is_hex_exec(s[i + 4]) && is_hex_exec(s[i + 5]) && hex_val_exec(s[i + 4]) < 2 {
            let hi = hex_val_exec(s[i + 4]);
            let lo = hex_val_exec(s[i + 5]);
            assert(suffix@.len() >= 6 && suffix@[1] == 117 && suffix@[2] == 48 && suffix@[3] == 48
                && suffix@[4] == s@[i + 4] && suffix@[5] == s@[i + 5]);
            let decoded = hi * 16 + lo;
            out.push(decoded);
            let mid = Ghost(out@);
            let rec = scan_jstring_into(s, i + 6, out);
            assert(suffix@.skip(6) =~= s@.skip(i + 6 as int));
            match rec {
                Some(j) => {
                    proof {
                        let p = scan_jstring(s@.skip(i + 6 as int)).unwrap();
                        assert(out@ =~= out@.take(mid@.len() as int) + out@.skip(mid@.len() as int));
                        assert(out@ =~= old(out)@ + seq![decoded] + p.0);
                        assert(out@.skip(old(out)@.len() as int) =~= seq![decoded] + p.0);
                        assert(out@.take(old(out)@.len() as int) =~= old(out)@);
                    }
                    Some(j)
                },
                None => None,
            }
        } else {
            proof {
                if suffix@.len() >= 2 && (suffix@[1] == QUOTE || suffix@[1] == BACKSLASH) {
                    assert(s@[i + 1] == suffix@[1]);
                }
                if suffix@.len() >= 6 && suffix@[1] == 117 && suffix@[2] == 48 && suffix@[3] == 48
                    && is_hex(suffix@[4]) && is_hex(suffix@[5]) && hex_val(suffix@[4]) < 2 {
                    assert(s@[i + 1] == suffix@[1] && s@[i + 2] == suffix@[2] && s@[i + 3]
                        == suffix@[3] && s@[i + 4] == suffix@[4] && s@[i + 5] == suffix@[5]);
                }
            }
            None
        }
    } else if b >= 32 {
        out.push(b);
        let mid = Ghost(out@);
        let rec = scan_jstring_into(s, i + 1, out);
        assert(suffix@.skip(1) =~= s@.skip(i + 1 as int));
        match rec {
            Some(j) => {
                proof {
                    let p = scan_jstring(s@.skip(i + 1 as int)).unwrap();
                    assert(out@ =~= out@.take(mid@.len() as int) + out@.skip(mid@.len() as int));
                    assert(out@ =~= old(out)@ + seq![b] + p.0);
                    assert(out@.skip(old(out)@.len() as int) =~= seq![b] + p.0);
                    assert(out@.take(old(out)@.len() as int) =~= old(out)@);
                }
                Some(j)
            },
            None => None,
        }
    } else {
        None
    }
}

fn is_hex_exec(b: u8) -> (r: bool)
    ensures
        r == is_hex(b),
{
    (48 <= b && b <= 57) || (97 <= b && b <= 102) || (65 <= b && b <= 70)
}

fn hex_val_exec(b: u8) -> (r: u8)
    requires
        is_hex(b),
    ensures
        r == hex_val(b),
        r < 16,
{
    if 48 <= b && b <= 57 {
        b - 48
    } else if 97 <= b && b <= 102 {
        b - 87
    } else {
        b - 55
    }
}

} // verus!
