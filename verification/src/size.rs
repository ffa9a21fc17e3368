//! The human size grammar: `<number>[b|k|kb|m|mb|g|gb|t|tb]`,
//! case-insensitive, with binary multipliers, fractions allowed and the
//! result floored; and the 1 MiB alignment used for partition geometry.

use vstd::prelude::*;

use vstd::arithmetic::div_mod::{
    lemma_div_denominator, lemma_hoist_over_denominator, lemma_fundamental_div_mod,
};
use vstd::arithmetic::power::pow;

use crate::device::{all_digits, digit_val, digits_val, is_digit};
use crate::strutil::{lower_char, lower_char_spec, lower_spec, push_char, str_eq, trim, trim_spec};

verus! {

/// Ten to the `k`.
pub open spec fn pow10(k: nat) -> nat {
    pow(10, k) as nat
}

/// A character of the numeric part: a digit or the decimal point.
pub open spec fn is_num_char(c: char) -> bool {
    is_digit(c) || c == '.'
}

/// The characters of `s` for which membership in the numeric part is
/// `keep`, in order.
pub open spec fn sieve(s: Seq<char>, keep: bool) -> Seq<char>
    decreases s.len(),
{
    if s.len() == 0 {
        Seq::empty()
    } else {
        let rest = sieve(s.drop_last(), keep);
        if is_num_char(s.last()) == keep {
            rest.push(s.last())
        } else {
            rest
        }
    }
}

/// Index of the first decimal point, or -1.
pub open spec fn first_dot(s: Seq<char>) -> int
    decreases s.len(),
{
    if s.len() == 0 {
        -1
    } else if s[0] == '.' {
        0
    } else if first_dot(s.skip(1)) == -1 {
        -1
    } else {
        first_dot(s.skip(1)) + 1
    }
}

/// The integer digits of the numeric part.
pub open spec fn int_part(num: Seq<char>) -> Seq<char> {
    if first_dot(num) == -1 {
        num
    } else {
        num.take(first_dot(num))
    }
}

/// The fraction digits of the numeric part.
pub open spec fn frac_part(num: Seq<char>) -> Seq<char> {
    if first_dot(num) == -1 {
        Seq::empty()
    } else {
        num.skip(first_dot(num) + 1)
    }
}

/// The numeric part denotes a number: at least one digit, and at most one
/// decimal point.
pub open spec fn num_valid(num: Seq<char>) -> bool {
    &&& int_part(num).len() + frac_part(num).len() > 0
    &&& all_digits(frac_part(num))
}

/// The multiplier named by a (lower-case, trimmed) suffix.
pub open spec fn size_multiplier(suf: Seq<char>) -> Option<nat> {
    if suf == ""@ || suf == "b"@ {
        Some(1)
    } else if suf == "k"@ || suf == "kb"@ {
        Some(1024)
    } else if suf == "m"@ || suf == "mb"@ {
        Some(0x100000)
    } else if suf == "g"@ || suf == "gb"@ {
        Some(0x40000000)
    } else if suf == "t"@ || suf == "tb"@ {
        Some(0x10000000000)
    } else {
        None
    }
}

/// The byte count a number with integer digits `i`, fraction digits `f`
/// and multiplier `m` denotes, floored.
pub open spec fn size_value(i: Seq<char>, f: Seq<char>, m: nat) -> nat {
    digits_val(i) * m + (digits_val(f) * m) / pow10(f.len())
}

/// Clamp a mathematical byte count into the 64-bit range.
pub open spec fn sat64(v: nat) -> u64 {
    if v > u64::MAX {
        u64::MAX
    } else {
        v as u64
    }
}

/// The numeric part of the size text: its digits and points, case-folded.
pub open spec fn size_num_part(s: Seq<char>) -> Seq<char> {
    sieve(lower_spec(s), true)
}

/// The suffix of the size text: everything else, trimmed.
pub open spec fn size_suffix(s: Seq<char>) -> Seq<char> {
    trim_spec(sieve(lower_spec(s), false))
}

/// What the size grammar gives for an input, when it parses.
pub open spec fn parse_size_spec(s: Seq<char>) -> Option<u64> {
    let num = size_num_part(s);
    match size_multiplier(size_suffix(s)) {
        Some(m) => if num_valid(num) {
            Some(sat64(size_value(int_part(num), frac_part(num), m)))
        } else {
            None
        },
        None => None,
    }
}

proof fn lemma_pow10_step(k: nat)
    ensures
        pow10(k + 1) == 10 * pow10(k),
        pow10(k) >= 1,
{
    vstd::arithmetic::power::lemma_pow1(10);
    vstd::arithmetic::power::lemma_pow_adds(10, 1, k);
    vstd::arithmetic::power::lemma_pow_positive(10, k);
}

proof fn lemma_sieve_members(s: Seq<char>, keep: bool)
    ensures
        forall|k: int|
            0 <= k < sieve(s, keep).len() ==> is_num_char(#[trigger] sieve(s, keep)[k]) == keep,
    decreases s.len(),
{
    if s.len() > 0 {
        lemma_sieve_members(s.drop_last(), keep);
        let rest = sieve(s.drop_last(), keep);
        assert forall|k: int| 0 <= k < sieve(s, keep).len() implies is_num_char(
            #[trigger] sieve(s, keep)[k],
        ) == keep by {
            if is_num_char(s.last()) == keep {
                assert(sieve(s, keep) == rest.push(s.last()));
                if k < rest.len() {
                    assert(sieve(s, keep)[k] == rest[k]);
                }
            } else {
                assert(sieve(s, keep) == rest);
            }
        }
    }
}

proof fn lemma_first_dot_none(s: Seq<char>)
    requires
        forall|k: int| 0 <= k < s.len() ==> s[k] != '.',
    ensures
        first_dot(s) == -1,
    decreases s.len(),
{
    if s.len() > 0 {
        assert(s[0] != '.');
        assert forall|k: int| 0 <= k < s.skip(1).len() implies s.skip(1)[k] != '.' by {
            assert(s.skip(1)[k] == s[k + 1]);
        }
        lemma_first_dot_none(s.skip(1));
    }
}

proof fn lemma_first_dot_at(s: Seq<char>, i: int)
    requires
        0 <= i < s.len(),
        s[i] == '.',
        forall|k: int| 0 <= k < i ==> s[k] != '.',
    ensures
        first_dot(s) == i,
    decreases i,
{
    if i > 0 {
        assert(s[0] != '.');
        assert(s.skip(1)[i - 1] == s[i]);
        assert forall|k: int| 0 <= k < i - 1 implies s.skip(1)[k] != '.' by {
            assert(s.skip(1)[k] == s[k + 1]);
        }
        lemma_first_dot_at(s.skip(1), i - 1);
    }
}

/// The split of a digit string at the front: the leading digit carries
/// a power of ten given by the rest.
proof fn lemma_digits_front(s: Seq<char>)
    requires
        s.len() > 0,
    ensures
        digits_val(s) == digit_val(s[0]) * pow10((s.len() - 1) as nat) + digits_val(s.skip(1)),
    decreases s.len(),
{
    if s.len() == 1 {
        assert(s.skip(1).len() == 0);
        assert(s.drop_last().len() == 0);
        assert(pow10(0) == 1) by {
            vstd::arithmetic::power::lemma_pow0(10);
        }
        assert(digits_val(s) == digits_val(s.drop_last()) * 10 + digit_val(s[0]));
        assert(digits_val(s.drop_last()) == 0);
        assert(digits_val(s.skip(1)) == 0);
        assert(digit_val(s[0]) * 1 == digit_val(s[0])) by (nonlinear_arith);
    } else {
        let dl = s.drop_last();
        lemma_digits_front(dl);
        assert(s.skip(1).drop_last() =~= dl.skip(1));
        assert(s.skip(1)[s.skip(1).len() - 1] == s[s.len() - 1]);
        assert(dl[0] == s[0]);
        let d = digit_val(s[0]);
        let p = pow10((s.len() - 2) as nat);
        assert(pow10((s.len() - 1) as nat) == 10 * p) by {
            lemma_pow10_step((s.len() - 2) as nat);
        }
        assert(digits_val(s) == (d * p + digits_val(dl.skip(1))) * 10 + digit_val(s[s.len() - 1]));
        assert((d * p + digits_val(dl.skip(1))) * 10 == d * (10 * p) + digits_val(dl.skip(1)) * 10)
            by (nonlinear_arith);
        assert(digits_val(s.skip(1)) == digits_val(dl.skip(1)) * 10 + digit_val(s[s.len() - 1]));
        assert(digits_val(s) == d * (10 * p) + digits_val(s.skip(1)));
        assert(d * pow10((s.len() - 1) as nat) == d * (10 * p));
    }
}

/// The scaled fraction as the digit-by-digit computation produces it.
pub open spec fn frac_scaled(f: Seq<char>, m: nat) -> nat
    decreases f.len(),
{
    if f.len() == 0 {
        0
    } else {
        ((digit_val(f[0]) * m + frac_scaled(f.skip(1), m)) / 10) as nat
    }
}

/// The digit-by-digit fraction computation gives exactly the floored
/// quotient `digits(f) * m / 10^len(f)`.
proof fn lemma_frac_scaled(f: Seq<char>, m: nat)
    ensures
        frac_scaled(f, m) == (digits_val(f) * m) / pow10(f.len()),
        frac_scaled(f, m) <= m,
    decreases f.len(),
{
    if f.len() == 0 {
        assert(pow10(0) == 1) by {
            vstd::arithmetic::power::lemma_pow0(10);
        }
        assert(frac_scaled(f, m) == 0);
        assert(digits_val(f) == 0);
        assert(digits_val(f) * m == 0) by (nonlinear_arith)
            requires
                digits_val(f) == 0,
        ;
        assert((digits_val(f) * m) / pow10(f.len()) == 0);
    } else {
        let d = digit_val(f[0]);
        let rest = f.skip(1);
        let p = pow10(rest.len());
        let big = pow10(f.len());
        lemma_frac_scaled(rest, m);
        lemma_digits_front(f);
        lemma_pow10_step(rest.len());
        assert(big == 10 * p);
        assert(p >= 1);
        let ds = digits_val(rest) * m;
        // digits_val(f) * m == d * m * p + ds
        assert(digits_val(f) * m == d * p * m + ds) by (nonlinear_arith)
            requires
                digits_val(f) == d * p + digits_val(rest),
                ds == digits_val(rest) * m,
        ;
        // (d*p*m + ds) / (p*10) == ((d*p*m + ds) / p) / 10
        lemma_div_denominator((d * p * m + ds) as int, p as int, 10);
        assert(big == p * 10) by (nonlinear_arith)
            requires
                big == 10 * p,
        ;
        // (d*p*m + ds) / p == d*m + ds/p
        assert((d * p * m + ds) / p == d * m + ds / p) by {
            lemma_hoist_over_denominator(ds as int, (d * m) as int, p);
            assert(d * m * p == d * p * m) by (nonlinear_arith);
        }
        assert((digits_val(f) * m) / big == (d * m + ds / p) / 10);
        // the bound: frac_scaled(f, m) <= m
        assert(ds / p <= m) by {
            assert(digits_val(rest) < p) by {
                lemma_digits_bound(rest);
            }
            assert(ds <= (p - 1) * m) by (nonlinear_arith)
                requires
                    digits_val(rest) <= p - 1,
                    ds == digits_val(rest) * m,
            ;
            assert(((p - 1) * m) / (p as int) <= m) by {
                assert((p - 1) * m <= p * m) by (nonlinear_arith)
                    requires
                        p >= 1,
                ;
                vstd::arithmetic::div_mod::lemma_div_is_ordered(
                    ((p - 1) * m) as int,
                    (p * m) as int,
                    p as int,
                );
                vstd::arithmetic::div_mod::lemma_div_by_multiple(m as int, p as int);
                assert(m * p == p * m) by (nonlinear_arith);
            }
            vstd::arithmetic::div_mod::lemma_div_is_ordered(ds as int, ((p - 1) * m) as int, p as int);
        }
        assert((d * m + ds / p) / 10 <= (9 * m + m) / 10) by {
            assert(d <= 9);
            assert(d * m <= 9 * m) by (nonlinear_arith)
                requires
                    d <= 9,
            ;
            vstd::arithmetic::div_mod::lemma_div_is_ordered(
                (d * m + ds / p) as int,
                (9 * m + m) as int,
                10,
            );
        }
        assert((9 * m + m) / 10 == m) by {
            assert(9 * m + m == 10 * m);
            vstd::arithmetic::div_mod::lemma_div_multiples_vanish(m as int, 10);
        }
        assert(frac_scaled(f, m) == (d * m + frac_scaled(rest, m)) / 10);
        assert(frac_scaled(rest, m) == ds / p);
        assert(((d * p * m + ds) / p) / 10 == (d * p * m + ds) / (p * 10));
        assert((digits_val(f) * m) / big == ((d * p * m + ds) / p) / 10);
        assert(frac_scaled(f, m) == (digits_val(f) * m) / big);
        assert(frac_scaled(f, m) == (digits_val(f) * m) / pow10(f.len()));
    }
}

/// A string of `k` digits denotes less than ten to the `k`.
proof fn lemma_digits_bound(s: Seq<char>)
    ensures
        digits_val(s) < pow10(s.len()),
    decreases s.len(),
{
    if s.len() == 0 {
        assert(pow10(0) == 1) by {
            vstd::arithmetic::power::lemma_pow0(10);
        }
    } else {
        lemma_digits_bound(s.drop_last());
        let p = pow10((s.len() - 1) as nat);
        lemma_pow10_step((s.len() - 1) as nat);
        assert(pow10(s.len()) == 10 * p);
        assert(digits_val(s.drop_last()) * 10 + digit_val(s[s.len() - 1]) < 10 * p)
            by (nonlinear_arith)
            requires
                digits_val(s.drop_last()) < p,
                digit_val(s[s.len() - 1]) <= 9,
        ;
    }
}

/// Parse one size argument.  On success the result is the denoted byte
/// count, clamped into 64 bits; a malformed number and an unknown suffix
/// name their own errors.
pub fn parse_size_bytes(value: &str) -> (r: Result<u64, String>)
    ensures
        match r {
            Ok(v) => parse_size_spec(value@) == Some(v),
            Err(e) => parse_size_spec(value@) is None && (if !num_valid(size_num_part(value@)) {
                e@ == "Invalid size"@
            } else {
                size_multiplier(size_suffix(value@)) is None && e@ == "Invalid size suffix"@
            }),
        },
{
    let n = value.unicode_len();
    let mut num = String::new();
    let mut other = String::new();
    let mut i: usize = 0;
    while i < n
        invariant
            i <= n,
            n == value@.len(),
            num@ == sieve(lower_spec(value@.subrange(0, i as int)), true),
            other@ == sieve(lower_spec(value@.subrange(0, i as int)), false),
        decreases n - i,
    {
        let c = lower_char(value.get_char(i));
        proof {
            let pref = value@.subrange(0, i as int);
            let pref1 = value@.subrange(0, i + 1);
            assert(pref1 =~= pref.push(value@[i as int]));
            assert(lower_spec(pref1) =~= lower_spec(pref).push(lower_char_spec(value@[i as int])));
            assert(lower_spec(pref1).drop_last() =~= lower_spec(pref));
        }
        let keep = (c >= '0' && c <= '9') || c == '.';
        if keep {
            push_char(&mut num, c);
        } else {
            push_char(&mut other, c);
        }
        i = i + 1;
    }
    proof {
        assert(value@.subrange(0, n as int) =~= value@);
    }
    let suffix = trim(other.as_str());

    // split the numeric part at the decimal point and check it
    let ghost numv = num@;
    let ns = num.as_str();
    let nlen = ns.unicode_len();
    let mut dot: usize = nlen;
    let mut j: usize = 0;
    while j < nlen
        invariant
            j <= nlen,
            nlen == numv.len(),
            ns@ == numv,
            dot <= nlen,
            dot == nlen ==> forall|k: int| 0 <= k < j ==> numv[k] != '.',
            dot < nlen ==> numv[dot as int] == '.' && (forall|k: int|
                0 <= k < dot ==> numv[k] != '.') && j > dot,
        decreases nlen - j,
    {
        if dot == nlen && ns.get_char(j) == '.' {
            dot = j;
        }
        j = j + 1;
    }
    proof {
        if dot == nlen {
            lemma_first_dot_none(numv);
        } else {
            lemma_first_dot_at(numv, dot as int);
        }
    }
    let ipart = ns.substring_char(0, if dot < nlen { dot } else { nlen });
    let fpart = if dot < nlen {
        ns.substring_char(dot + 1, nlen)
    } else {
        ns.substring_char(nlen, nlen)
    };
    proof {
        if dot < nlen {
            assert(ipart@ =~= int_part(numv));
            assert(fpart@ =~= frac_part(numv));
        } else {
            assert(ipart@ =~= int_part(numv));
            assert(fpart@ =~= frac_part(numv));
        }
        lemma_sieve_members(lower_spec(value@), true);
    }
    // every character of the numeric part is a digit or a point; a digit
    // string is valid when it is non-empty after removing one point
    if ipart.unicode_len() == 0 && fpart.unicode_len() == 0 {
        proof {
            assert(numv == size_num_part(value@));
            assert(!num_valid(numv));
            assert(!num_valid(size_num_part(value@)));
        }
        return Err(String::from_str("Invalid size"));
    }
    // a second point makes the fraction part non-digit
    let flen = fpart.unicode_len();
    let mut bad: bool = false;
    let mut k: usize = 0;
    while k < flen
        invariant
            k <= flen,
            flen == fpart@.len(),
            !bad ==> forall|t: int| 0 <= t < k ==> fpart@[t] != '.',
            bad ==> exists|t: int| 0 <= t < fpart@.len() && fpart@[t] == '.',
        decreases flen - k,
    {
        if fpart.get_char(k) == '.' {
            proof {
                assert(fpart@[k as int] == '.');
            }
            bad = true;
        }
        k = k + 1;
    }
    if bad {
        proof {
            let t = choose|t: int| 0 <= t < fpart@.len() && fpart@[t] == '.';
            assert(numv == size_num_part(value@));
            assert(frac_part(numv)[t] == fpart@[t]);
            assert(!is_digit(frac_part(numv)[t]));
            assert(!num_valid(numv));
        }
        return Err(String::from_str("Invalid size"));
    }
    proof {
        let full = sieve(lower_spec(value@), true);
        assert(numv == full);
        assert forall|t: int| 0 <= t < frac_part(numv).len() implies is_digit(
            #[trigger] frac_part(numv)[t],
        ) by {
            assert(frac_part(numv)[t] == fpart@[t]);
            assert(fpart@[t] != '.');
            assert(is_num_char(full[t + first_dot(numv) + 1]));
        }
        assert(num_valid(numv));
        assert forall|t: int| 0 <= t < int_part(numv).len() implies is_digit(
            #[trigger] int_part(numv)[t],
        ) by {
            assert(numv[t] == int_part(numv)[t]);
            assert(is_num_char(full[t]));
            assert(numv[t] != '.');
        }
    }

    // the multiplier
    let sufs = suffix.as_str();
    let m: u64 = match multiplier_for(sufs) {
        Some(mul) => mul,
        None => {
            return Err(String::from_str("Invalid size suffix"));
        },
    };

    // integer digits, with a sticky clamp past the 64-bit range
    let ilen = ipart.unicode_len();
    let mut acc: u128 = 0;
    let mut over: bool = false;
    let mut t: usize = 0;
    while t < ilen
        invariant
            t <= ilen,
            ilen == ipart@.len(),
            forall|k: int| 0 <= k < ipart@.len() ==> is_digit(#[trigger] ipart@[k]),
            !over ==> acc == digits_val(ipart@.subrange(0, t as int)) && acc <= u64::MAX,
            over ==> digits_val(ipart@.subrange(0, t as int)) > u64::MAX,
        decreases ilen - t,
    {
        let c = ipart.get_char(t);
        let d: u128 = match c {
            '0' => 0, '1' => 1, '2' => 2, '3' => 3, '4' => 4,
            '5' => 5, '6' => 6, '7' => 7, '8' => 8, _ => 9,
        };
        proof {
            assert(ipart@.subrange(0, t + 1).drop_last() =~= ipart@.subrange(0, t as int));
            assert(is_digit(ipart@[t as int]));
            assert(d == digit_val(ipart@[t as int]));
        }
        if over {
            proof {
                let prev = digits_val(ipart@.subrange(0, t as int));
                assert(prev * 10 + digit_val(ipart@[t as int]) > u64::MAX) by (nonlinear_arith)
                    requires
                        prev > u64::MAX,
                ;
            }
        } else {
            let next = acc * 10 + d;
            if next > u64::MAX as u128 {
                over = true;
            } else {
                acc = next;
            }
        }
        t = t + 1;
    }
    proof {
        assert(ipart@.subrange(0, ilen as int) =~= ipart@);
    }

    // fraction digits, least significant first
    let mut frac: u64 = 0;
    let mut u: usize = flen;
    while u > 0
        invariant
            u <= flen,
            flen == fpart@.len(),
            forall|k: int| 0 <= k < fpart@.len() ==> is_digit(#[trigger] fpart@[k]),
            1 <= m <= 0x10000000000,
            frac == frac_scaled(fpart@.skip(u as int), m as nat),
            frac <= m,
        decreases u,
    {
        u = u - 1;
        let c = fpart.get_char(u);
        let d: u64 = match c {
            '0' => 0, '1' => 1, '2' => 2, '3' => 3, '4' => 4,
            '5' => 5, '6' => 6, '7' => 7, '8' => 8, _ => 9,
        };
        proof {
            assert(is_digit(fpart@[u as int]));
            assert(d == digit_val(fpart@[u as int]));
            assert(fpart@.skip(u as int).skip(1) =~= fpart@.skip(u + 1));
            assert(fpart@.skip(u as int)[0] == fpart@[u as int]);
            lemma_frac_scaled(fpart@.skip(u as int), m as nat);
            lemma_frac_scaled(fpart@.skip(u + 1), m as nat);
        }
        frac = (d * m + frac) / 10;
    }
    proof {
        assert(fpart@.skip(0) =~= fpart@);
        lemma_frac_scaled(fpart@, m as nat);
    }

    // combine, clamping into the 64-bit range
    if over {
        proof {
            let iv = digits_val(int_part(numv));
            assert(iv * (m as nat) >= iv) by (nonlinear_arith)
                requires
                    m >= 1,
                    iv >= 0,
            ;
            assert(size_value(int_part(numv), frac_part(numv), m as nat) > u64::MAX);
            assert(sat64(size_value(int_part(numv), frac_part(numv), m as nat)) == u64::MAX);
        }
        return Ok(u64::MAX);
    }
    proof {
        assert(acc * (m as u128) <= u64::MAX * 0x10000000000) by (nonlinear_arith)
            requires
                acc <= u64::MAX,
                m <= 0x10000000000,
        ;
    }
    let im: u128 = acc * (m as u128);
    let total: u128 = im + (frac as u128);
    proof {
        let iv = digits_val(int_part(numv));
        assert(im == iv * (m as nat));
        assert(total == size_value(int_part(numv), frac_part(numv), m as nat));
    }
    if total > u64::MAX as u128 {
        Ok(u64::MAX)
    } else {
        Ok(total as u64)
    }
}

/// The multiplier an already lower-cased, trimmed suffix names.
fn multiplier_for(suf: &str) -> (r: Option<u64>)
    ensures
        match r {
            Some(m) => size_multiplier(suf@) == Some(m as nat) && 1 <= m <= 0x10000000000,
            None => size_multiplier(suf@) is None,
        },
{
    if suf.unicode_len() == 0 {
        proof {
            reveal_strlit("");
            assert(suf@ =~= ""@);
        }
        return Some(1);
    }
    proof {
        reveal_strlit("");
        assert(suf@ != ""@);
    }
    if str_eq(suf, "b") {
        return Some(1);
    }
    if str_eq(suf, "k") || str_eq(suf, "kb") {
        return Some(1024);
    }
    if str_eq(suf, "m") || str_eq(suf, "mb") {
        return Some(0x100000);
    }
    if str_eq(suf, "g") || str_eq(suf, "gb") {
        return Some(0x40000000);
    }
    if str_eq(suf, "t") || str_eq(suf, "tb") {
        return Some(0x10000000000);
    }
    None
}

/// Align a byte count down to a whole number of MiB.
pub open spec fn align_mib_spec(v: u64) -> u64 {
    ((v / 0x100000) * 0x100000) as u64
}

/// Align down to 1 MiB, the floor used for all partition geometry.
pub fn align_mib(value: u64) -> (r: u64)
    ensures
        r == align_mib_spec(value),
        r <= value,
        r % 0x100000 == 0,
{
    proof {
        lemma_fundamental_div_mod(value as int, 0x100000);
        assert((value / 0x100000) * 0x100000 == 0x100000 * (value / 0x100000)) by (nonlinear_arith);
        assert(((value as int / 0x100000) * 0x100000) % 0x100000 == 0) by {
            vstd::arithmetic::div_mod::lemma_mod_multiples_basic(
                value as int / 0x100000,
                0x100000,
            );
        }
    }
    value / 0x100000 * 0x100000
}

} // verus!
