//! Decimal text for 64-bit integers: the canonical representation written by
//! the serializer, and the (more permissive) representation accepted by the
//! parser, with proofs that formatting and parsing invert each other.

use vstd::prelude::*;

verus! {

/// An ASCII decimal digit.
pub open spec fn is_digit(b: u8) -> bool {
    48 <= b && b <= 57
}

pub open spec fn digit_val(b: u8) -> int {
    b - 48
}

pub open spec fn all_digits(s: Seq<u8>) -> bool {
    forall|i: int| 0 <= i < s.len() ==> is_digit(s[i])
}

/// Value of a digit string, most significant digit first.
pub open spec fn digits_val(s: Seq<u8>) -> int
    decreases s.len(),
{
    if s.len() == 0 {
        0
    } else {
        digits_val(s.drop_last()) * 10 + digit_val(s.last())
    }
}

/// Canonical decimal digits of a natural number: no sign, no leading zeros.
pub open spec fn u64_dec(n: nat) -> Seq<u8>
    decreases n,
{
    if n < 10 {
        seq![(48 + n) as u8]
    } else {
        u64_dec(n / 10).push((48 + (n % 10)) as u8)
    }
}

/// Canonical decimal text of a signed number: a minus sign for negatives.
pub open spec fn i64_dec(n: int) -> Seq<u8> {
    if n >= 0 {
        u64_dec(n as nat)
    } else {
        seq![45u8] + u64_dec((-n) as nat)
    }
}

/// What `u64::from_str` accepts: an optional plus sign, then digits, in range.
pub open spec fn spec_parse_u64(s: Seq<u8>) -> Option<u64> {
    let ds = if s.len() > 0 && s[0] == 43 {
        s.drop_first()
    } else {
        s
    };
    if ds.len() >= 1 && all_digits(ds) && digits_val(ds) <= u64::MAX {
        Some(digits_val(ds) as u64)
    } else {
        None
    }
}

/// What `i64::from_str` accepts: an optional sign, then digits, in range.
pub open spec fn spec_parse_i64(s: Seq<u8>) -> Option<i64> {
    if s.len() > 0 && s[0] == 45 {
        let ds = s.drop_first();
        if ds.len() >= 1 && all_digits(ds) && digits_val(ds) <= 0x8000_0000_0000_0000 {
            Some((-digits_val(ds)) as i64)
        } else {
            None
        }
    } else {
        let ds = if s.len() > 0 && s[0] == 43 {
            s.drop_first()
        } else {
            s
        };
        if ds.len() >= 1 && all_digits(ds) && digits_val(ds) <= 0x7fff_ffff_ffff_ffff {
            Some(digits_val(ds) as i64)
        } else {
            None
        }
    }
}

pub proof fn lemma_digits_val_nonneg(s: Seq<u8>)
    requires
        all_digits(s),
    ensures
        digits_val(s) >= 0,
    decreases s.len(),
{
    if s.len() > 0 {
        assert(all_digits(s.drop_last()));
        lemma_digits_val_nonneg(s.drop_last());
    }
}

/// A digit string is worth at least any of its prefixes.
pub proof fn lemma_digits_val_prefix(s: Seq<u8>, k: int)
    requires
        all_digits(s),
        0 <= k <= s.len(),
    ensures
        digits_val(s.take(k)) <= digits_val(s),
    decreases s.len() - k,
{
    if k < s.len() {
        lemma_digits_val_prefix(s, k + 1);
        assert(s.take(k + 1).drop_last() =~= s.take(k));
        assert(all_digits(s.take(k)));
        lemma_digits_val_nonneg(s.take(k));
        assert(is_digit(s[k]));
        assert(s.take(k + 1).last() == s[k]);
        assert(digits_val(s.take(k + 1)) == digits_val(s.take(k)) * 10 + digit_val(s[k]));
        assert(digits_val(s.take(k)) <= digits_val(s.take(k)) * 10 + digit_val(s[k]));
    } else {
        assert(s.take(k) =~= s);
    }
}

/// The canonical digits of `n` are digits and are worth `n`.
pub proof fn lemma_u64_dec_val(n: nat)
    ensures
        u64_dec(n).len() >= 1,
        all_digits(u64_dec(n)),
        digits_val(u64_dec(n)) == n,
    decreases n,
{
    if n < 10 {
        let s = u64_dec(n);
        assert(s =~= seq![(48 + n) as u8]);
        assert(s.drop_last() =~= Seq::<u8>::empty());
        assert(digits_val(Seq::<u8>::empty()) == 0);
        assert((48 + n) as u8 == 48 + n);
        assert(digits_val(s) == digit_val((48 + n) as u8));
    } else {
        lemma_u64_dec_val(n / 10);
        let p = u64_dec(n / 10);
        let s = p.push((48 + (n % 10)) as u8);
        assert(s.drop_last() =~= p);
        assert(s.last() == (48 + (n % 10)) as u8);
        assert(digits_val(s) == digits_val(p) * 10 + (n % 10));
        assert(forall|i: int| 0 <= i < s.len() ==> is_digit(s[i])) by {
            assert(forall|i: int| 0 <= i < p.len() ==> is_digit(#[trigger] s[i]) && s[i] == p[i]);
        }
    }
}

/// Parsing the canonical decimal text of `n` gives back `n`.
pub proof fn lemma_i64_dec_parse(n: i64)
    ensures
        spec_parse_i64(i64_dec(n as int)) == Some(n),
{
    if n >= 0 {
        lemma_u64_dec_val(n as nat);
        let s = u64_dec(n as nat);
        assert(is_digit(s[0]));
    } else {
        let m = (-(n as int)) as nat;
        lemma_u64_dec_val(m);
        let s = seq![45u8] + u64_dec(m);
        assert(i64_dec(n as int) == s);
        assert(s[0] == 45u8);
        assert(s.drop_first() =~= u64_dec(m));
    }
}

/// Parses the digit run `s[start..end]`, requiring the value to stay within
/// `limit`; reports exactly whether the run is a digit string worth at most
/// `limit`.
fn parse_digits(s: &Vec<u8>, start: usize, end: usize, limit: u64) -> (r: Option<u64>)
    requires
        start <= end && end <= s@.len(),
    ensures
        ({
            let ds = s@.subrange(start as int, end as int);
            match r {
                Some(v) => ds.len() >= 1 && all_digits(ds) && digits_val(ds) == v && v <= limit,
                None => !(ds.len() >= 1 && all_digits(ds) && digits_val(ds) <= limit),
            }
        }),
{
    let ghost ds = s@.subrange(start as int, end as int);
    if start == end {
        return None;
    }
    let mut acc: u64 = 0;
    let mut i: usize = start;
    while i < end
        invariant
            start <= i <= end <= s@.len(),
            ds == s@.subrange(start as int, end as int),
            all_digits(ds.take(i - start)),
            acc == digits_val(ds.take(i - start)),
            acc <= limit,
        decreases end - i,
    {
        let b = s[i];
        let ghost k = i - start;
        assert(ds[k] == b);
        if b < 48 || b > 57 {
            assert(!is_digit(ds[k]));
            return None;
        }
        let d: u64 = (b - 48) as u64;
        assert(ds.take(k + 1).drop_last() =~= ds.take(k));
        assert(digits_val(ds.take(k + 1)) == acc * 10 + d);
        if acc > limit / 10 {
            proof {
                assert(acc * 10 + d > limit);
                if all_digits(ds) {
                    lemma_digits_val_prefix(ds, k + 1);
                }
            }
            return None;
        }
        assert(acc * 10 <= (limit / 10) * 10 + d) by (nonlinear_arith)
            requires acc <= limit / 10, d >= 0;
        let t: u64 = acc * 10;
        if d > limit - t {
            proof {
                assert(acc * 10 + d > limit);
                if all_digits(ds) {
                    lemma_digits_val_prefix(ds, k + 1);
                }
            }
            return None;
        }
        acc = t + d;
        i = i + 1;
        assert(ds.take(i - start) =~= ds.take(k + 1));
    }
    assert(ds.take(i - start) =~= ds);
    Some(acc)
}

/// Parses `s[start..end]` as `u64::from_str` does.
pub fn parse_u64(s: &Vec<u8>, start: usize, end: usize) -> (r: Option<u64>)
    requires
        start <= end && end <= s@.len(),
    ensures
        r == spec_parse_u64(s@.subrange(start as int, end as int)),
{
    let ghost whole = s@.subrange(start as int, end as int);
    if start < end && s[start] == 43 {
        let r = parse_digits(s, start + 1, end, u64::MAX);
        proof {
            assert(whole.drop_first() =~= s@.subrange(start + 1, end as int));
        }
        r
    } else {
        parse_digits(s, start, end, u64::MAX)
    }
}

/// Parses `s[start..end]` as `i64::from_str` does.
pub fn parse_i64(s: &Vec<u8>, start: usize, end: usize) -> (r: Option<i64>)
    requires
        start <= end && end <= s@.len(),
    ensures
        r == spec_parse_i64(s@.subrange(start as int, end as int)),
{
    let ghost whole = s@.subrange(start as int, end as int);
    if start < end && s[start] == 45 {
        proof {
            assert(whole.drop_first() =~= s@.subrange(start + 1, end as int));
        }
        match parse_digits(s, start + 1, end, 0x8000_0000_0000_0000u64) {
            Some(v) => {
                if v == 0x8000_0000_0000_0000u64 {
                    Some(i64::MIN)
                } else {
                    Some(-(v as i64))
                }
            },
            None => None,
        }
    } else if start < end && s[start] == 43 {
        proof {
            assert(whole.drop_first() =~= s@.subrange(start + 1, end as int));
        }
        match parse_digits(s, start + 1, end, 0x7fff_ffff_ffff_ffffu64) {
            Some(v) => Some(v as i64),
            None => None,
        }
    } else {
        match parse_digits(s, start, end, 0x7fff_ffff_ffff_ffffu64) {
            Some(v) => Some(v as i64),
            None => None,
        }
    }
}

/// Formats `n` as its canonical decimal digits.
pub fn fmt_u64(n: u64) -> (r: Vec<u8>)
    ensures
        r@ == u64_dec(n as nat),
    decreases n,
{
    if n < 10 {
        let mut v: Vec<u8> = Vec::new();
        v.push(48 + n as u8);
        assert(v@ =~= u64_dec(n as nat));
        v
    } else {
        let mut r = fmt_u64(n / 10);
        r.push(48 + (n % 10) as u8);
        assert(r@ =~= u64_dec(n as nat));
        r
    }
}

/// Formats `n` as its canonical decimal text.
pub fn fmt_i64(n: i64) -> (r: Vec<u8>)
    ensures
        r@ == i64_dec(n as int),
{
    if n >= 0 {
        fmt_u64(n as u64)
    } else {
        let mag: u64 = if n == i64::MIN {
            0x8000_0000_0000_0000u64
        } else {
            (-n) as u64
        };
        assert(mag == -(n as int));
        let mut r: Vec<u8> = Vec::new();
        r.push(45);
        let mut d = fmt_u64(mag);
        r.append(&mut d);
        assert(r@ =~= i64_dec(n as int));
        r
    }
}

} // verus!
