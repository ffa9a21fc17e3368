//! Device-identifier handling.
//!
//! Identifiers arrive either bare (`disk2s3`) or absolute (`/dev/disk2s3`).
//! Everything below block level works on the absolute form; a raw form
//! (`/dev/rdisk…`) is derived for unbuffered byte I/O on whole disks.

use vstd::prelude::*;

use crate::strutil::{contains_str, contains_sub, match_at, matches_at, push_char};

verus! {

/// `p` is a prefix of `s`.
pub open spec fn has_prefix(s: Seq<char>, p: Seq<char>) -> bool {
    p.len() <= s.len() && s.subrange(0, p.len() as int) == p
}

/// The absolute form of an identifier: prefix `/dev/` unless already present.
pub open spec fn normalize_device_spec(s: Seq<char>) -> Seq<char> {
    if has_prefix(s, "/dev/"@) {
        s
    } else {
        "/dev/"@ + s
    }
}

/// `s` starts with `p`.
pub fn starts_with(s: &str, p: &str) -> (r: bool)
    ensures
        r == has_prefix(s@, p@),
{
    let n = p.unicode_len();
    let m = s.unicode_len();
    if n > m {
        return false;
    }
    let mut i: usize = 0;
    while i < n
        invariant
            i <= n,
            n == p@.len(),
            n <= m == s@.len(),
            forall|j: int| 0 <= j < i ==> s@[j] == p@[j],
        decreases n - i,
    {
        if s.get_char(i) != p.get_char(i) {
            return false;
        }
        i = i + 1;
    }
    proof {
        assert(s@.subrange(0, n as int) =~= p@);
    }
    true
}

/// Bring an identifier to absolute form: `disk2s3` becomes `/dev/disk2s3`,
/// and an identifier that already starts with `/dev/` is left unchanged.
pub fn normalize_device(identifier: &str) -> (r: String)
    ensures
        r@ == normalize_device_spec(identifier@),
{
    if starts_with(identifier, "/dev/") {
        identifier.to_owned()
    } else {
        let r = String::from_str("/dev/");
        r.concat(identifier)
    }
}

/// Normalisation is idempotent: a second pass changes nothing.
pub proof fn lemma_normalize_idempotent(s: Seq<char>)
    ensures
        normalize_device_spec(normalize_device_spec(s)) == normalize_device_spec(s),
{
    if !has_prefix(s, "/dev/"@) {
        assert(("/dev/"@ + s).subrange(0, "/dev/"@.len() as int) =~= "/dev/"@);
    }
}

/// The identifier with every leading `/dev/` removed.
pub open spec fn strip_dev_spec(s: Seq<char>) -> Seq<char>
    decreases s.len(),
{
    if s.len() >= 5 && s.subrange(0, 5) == "/dev/"@ {
        strip_dev_spec(s.skip(5))
    } else {
        s
    }
}

/// Remove the leading `/dev/` from an identifier, repeatedly if doubled.
pub fn strip_device_prefix(identifier: &str) -> (r: String)
    ensures
        r@ == strip_dev_spec(identifier@),
{
    let mut rest: &str = identifier;
    loop
        invariant
            strip_dev_spec(rest@) == strip_dev_spec(identifier@),
        decreases rest@.len(),
    {
        proof {
            reveal_strlit("/dev/");
        }
        let n = rest.unicode_len();
        if n >= 5 && matches_at(rest, "/dev/", 0) {
            let tail = rest.substring_char(5, n);
            proof {
                assert(rest@.subrange(0, 5) =~= rest@.subrange(0int, 0 + "/dev/"@.len() as int));
                assert(tail@ =~= rest@.skip(5));
            }
            rest = tail;
        } else {
            proof {
                if rest@.len() >= 5 {
                    assert(rest@.subrange(0int, 0 + "/dev/"@.len() as int) =~= rest@.subrange(0, 5));
                }
            }
            return rest.to_owned();
        }
    }
}

/// The greatest index holding `s` (the partition separator), if any.
pub open spec fn rfind_sep(s: Seq<char>) -> Option<int>
    decreases s.len(),
{
    if s.len() == 0 {
        None
    } else if s[s.len() - 1] == 's' {
        Some(s.len() - 1)
    } else {
        rfind_sep(s.drop_last())
    }
}

proof fn lemma_rfind_sep_none(s: Seq<char>)
    requires
        forall|k: int| 0 <= k < s.len() ==> s[k] != 's',
    ensures
        rfind_sep(s) is None,
    decreases s.len(),
{
    if s.len() > 0 {
        lemma_rfind_sep_none(s.drop_last());
    }
}

proof fn lemma_rfind_sep_at(s: Seq<char>, i: int)
    requires
        0 <= i < s.len(),
        s[i] == 's',
        forall|k: int| i < k < s.len() ==> s[k] != 's',
    ensures
        rfind_sep(s) == Some(i),
    decreases s.len(),
{
    if i == s.len() - 1 {
    } else {
        lemma_rfind_sep_at(s.drop_last(), i);
    }
}

/// Scan a string for the last `s`, returning its index.
fn rfind_s(s: &str) -> (r: Option<usize>)
    ensures
        match r {
            Some(i) => 0 <= i < s@.len() && rfind_sep(s@) == Some(i as int),
            None => rfind_sep(s@) is None,
        },
{
    let n = s.unicode_len();
    let mut i: usize = n;
    while i > 0
        invariant
            i <= n,
            n == s@.len(),
            forall|k: int| i <= k < n ==> s@[k] != 's',
        decreases i,
    {
        i = i - 1;
        if s.get_char(i) == 's' {
            proof {
                lemma_rfind_sep_at(s@, i as int);
            }
            return Some(i);
        }
    }
    proof {
        lemma_rfind_sep_none(s@);
    }
    None
}

/// One decimal digit.
pub open spec fn is_digit(c: char) -> bool {
    '0' <= c && c <= '9'
}

/// The value of one decimal digit.
pub open spec fn digit_val(c: char) -> nat {
    match c {
        '0' => 0, '1' => 1, '2' => 2, '3' => 3, '4' => 4,
        '5' => 5, '6' => 6, '7' => 7, '8' => 8, _ => 9,
    }
}

/// The number written by a digit sequence, most significant first.
pub open spec fn digits_val(s: Seq<char>) -> nat
    decreases s.len(),
{
    if s.len() == 0 {
        0
    } else {
        digits_val(s.drop_last()) * 10 + digit_val(s[s.len() - 1])
    }
}

/// All characters are decimal digits.
pub open spec fn all_digits(s: Seq<char>) -> bool {
    forall|k: int| 0 <= k < s.len() ==> is_digit(s[k])
}

/// The number an unsigned-integer literal denotes: an optional `+` sign,
/// then at least one digit, with a value that fits in 32 bits.
pub open spec fn parse_u32_spec(s: Seq<char>) -> Option<u32> {
    let body = if s.len() > 0 && s[0] == '+' {
        s.skip(1)
    } else {
        s
    };
    if body.len() > 0 && all_digits(body) && digits_val(body) <= u32::MAX {
        Some(digits_val(body) as u32)
    } else {
        None
    }
}

proof fn lemma_digits_val_grows(s: Seq<char>, c: char)
    ensures
        digits_val(s.push(c)) == digits_val(s) * 10 + digit_val(c),
{
    assert(s.push(c).drop_last() =~= s);
}

/// Parse a digit string into a 32-bit number.
pub fn parse_u32(s: &str) -> (r: Option<u32>)
    ensures
        r == parse_u32_spec(s@),
{
    let n = s.unicode_len();
    let mut start: usize = 0;
    if n > 0 && s.get_char(0) == '+' {
        start = 1;
    }
    if start >= n {
        return None;
    }
    let ghost body = if s@[0] == '+' { s@.skip(1) } else { s@ };
    let mut acc: u64 = 0;
    let mut over: bool = false;
    let mut i: usize = start;
    while i < n
        invariant
            start <= i <= n,
            n == s@.len(),
            start < n,
            start == 1 ==> s@[0] == '+',
            start == 0 ==> (n == 0 || s@[0] != '+'),
            body == if s@[0] == '+' { s@.skip(1) } else { s@ },
            body =~= s@.skip(start as int),
            all_digits(s@.subrange(start as int, i as int)),
            !over ==> acc == digits_val(s@.subrange(start as int, i as int)) && acc <= u32::MAX,
            over ==> digits_val(s@.subrange(start as int, i as int)) > u32::MAX,
        decreases n - i,
    {
        let c = s.get_char(i);
        if c < '0' || c > '9' {
            return None;
        }
        let d: u64 = match c {
            '0' => 0, '1' => 1, '2' => 2, '3' => 3, '4' => 4,
            '5' => 5, '6' => 6, '7' => 7, '8' => 8, _ => 9,
        };
        proof {
            assert(s@.subrange(start as int, i + 1) =~= s@.subrange(start as int, i as int).push(
                s@[i as int],
            ));
            lemma_digits_val_grows(s@.subrange(start as int, i as int), s@[i as int]);
        }
        if over {
            proof {
                let prev = digits_val(s@.subrange(start as int, i as int));
                assert(prev * 10 == prev + prev * 9) by (nonlinear_arith);
                assert(prev * 9 >= 0) by (nonlinear_arith);
            }
        } else {
            let next = acc * 10 + d;
            if next > u32::MAX as u64 {
                over = true;
            } else {
                acc = next;
            }
        }
        i = i + 1;
    }
    proof {
        assert(s@.subrange(start as int, n as int) =~= body);
    }
    if over {
        None
    } else {
        Some(acc as u32)
    }
}

/// The partition number of an identifier: the digits after the last `s`
/// of the stripped form, absent for a whole disk.
pub open spec fn partition_number_spec(device: Seq<char>) -> Option<u32> {
    let cleaned = strip_dev_spec(device);
    match rfind_sep(cleaned) {
        Some(idx) => parse_u32_spec(cleaned.skip(idx + 1)),
        None => None,
    }
}

/// The partition number of a device identifier: `/dev/disk2s3` gives 3,
/// `/dev/disk2` gives nothing.
pub fn partition_number(device: &str) -> (r: Option<u32>)
    ensures
        r == partition_number_spec(device@),
{
    let cleaned = strip_device_prefix(device);
    let cs: &str = cleaned.as_str();
    let nn = cs.unicode_len();
    match rfind_s(cs) {
        Some(idx) => {
            let tail = cs.substring_char(idx + 1, nn);
            proof {
                assert(tail@ =~= cs@.skip(idx + 1));
            }
            parse_u32(tail)
        },
        None => None,
    }
}

/// The parent whole disk of an identifier: everything before the last
/// `s` that a partition number follows, in absolute form; absent for a
/// whole disk.
pub open spec fn parent_disk_spec(device: Seq<char>) -> Option<Seq<char>> {
    let cleaned = strip_dev_spec(device);
    match rfind_sep(cleaned) {
        Some(idx) => if parse_u32_spec(cleaned.skip(idx + 1)) is Some {
            Some("/dev/"@ + cleaned.subrange(0, idx))
        } else {
            None
        },
        None => None,
    }
}

/// The parent whole disk of a partition: `/dev/disk2s3` gives
/// `/dev/disk2`, and a whole disk such as `/dev/disk2` has none.
pub fn parent_disk_identifier(device: &str) -> (r: Option<String>)
    ensures
        match r {
            Some(d) => parent_disk_spec(device@) == Some(d@),
            None => parent_disk_spec(device@) is None,
        },
{
    let cleaned = strip_device_prefix(device);
    let cs: &str = cleaned.as_str();
    let nn = cs.unicode_len();
    match rfind_s(cs) {
        Some(idx) => {
            let tail = cs.substring_char(idx + 1, nn);
            proof {
                assert(tail@ =~= cs@.skip(idx + 1));
            }
            if parse_u32(tail).is_none() {
                return None;
            }
            let head = cs.substring_char(0, idx);
            proof {
                assert(head@ =~= cs@.subrange(0, idx as int));
            }
            let r = String::from_str("/dev/");
            Some(r.concat(head))
        },
        None => None,
    }
}

/// Every occurrence of `/dev/` replaced by `/dev/r`, left to right.
pub open spec fn replace_dev_spec(s: Seq<char>) -> Seq<char>
    decreases s.len(),
{
    if s.len() >= 5 && s.subrange(0, 5) == "/dev/"@ {
        "/dev/r"@ + replace_dev_spec(s.skip(5))
    } else if s.len() == 0 {
        s
    } else {
        seq![s[0]] + replace_dev_spec(s.skip(1))
    }
}

/// The raw (unbuffered) form of a device path: `/dev/disk…` becomes
/// `/dev/rdisk…`; a path already in raw form is unchanged.
pub open spec fn raw_device_spec(s: Seq<char>) -> Seq<char> {
    if contains_sub(s, "/dev/rdisk"@) {
        s
    } else if has_prefix(s, "/dev/disk"@) {
        "/dev/r"@ + s.skip(5)
    } else {
        replace_dev_spec(s)
    }
}

/// Derive the raw device path used for byte I/O.
pub fn raw_device_path(device: &str) -> (r: String)
    ensures
        r@ == raw_device_spec(device@),
{
    if contains_str(device, "/dev/rdisk") {
        return device.to_owned();
    }
    if starts_with(device, "/dev/disk") {
        proof {
            reveal_strlit("/dev/disk");
        }
        let tail = device.substring_char(5, device.unicode_len());
        proof {
            assert(tail@ =~= device@.skip(5));
        }
        let r = String::from_str("/dev/r");
        return r.concat(tail);
    }
    // neither raw nor a /dev/disk path: rewrite every /dev/ occurrence
    let n = device.unicode_len();
    let mut out = String::new();
    let mut i: usize = 0;
    proof {
        reveal_strlit("/dev/");
        assert(device@.skip(0) =~= device@);
    }
    while i < n
        invariant
            i <= n,
            n == device@.len(),
            out@ + replace_dev_spec(device@.skip(i as int)) == replace_dev_spec(device@),
        decreases n - i,
    {
        proof {
            reveal_strlit("/dev/");
            reveal_strlit("/dev/r");
        }
        let ghost rest = device@.skip(i as int);
        if n >= 5 && i <= n - 5 && matches_at(device, "/dev/", i) {
            proof {
                assert(rest.subrange(0, 5) =~= device@.subrange(
                    i as int,
                    i + "/dev/"@.len() as int,
                ));
                assert(rest.skip(5) =~= device@.skip(i + 5));
                assert(replace_dev_spec(rest) == "/dev/r"@ + replace_dev_spec(rest.skip(5)));
                assert((out@ + "/dev/r"@) + replace_dev_spec(device@.skip(i + 5)) =~= out@
                    + replace_dev_spec(rest));
            }
            let piece = String::from_str("/dev/r");
            out.append(piece.as_str());
            i = i + 5;
        } else {
            proof {
                if rest.len() >= 5 {
                    assert(device@.subrange(i as int, i + "/dev/"@.len() as int) =~= rest.subrange(
                        0,
                        5,
                    ));
                }
                assert(rest.skip(1) =~= device@.skip(i + 1));
                assert(out@.push(device@[i as int]) + replace_dev_spec(device@.skip(i + 1))
                    =~= out@ + (seq![rest[0]] + replace_dev_spec(rest.skip(1))));
            }
            let c = device.get_char(i);
            push_char(&mut out, c);
            i = i + 1;
        }
    }
    proof {
        assert(device@.skip(n as int) =~= Seq::<char>::empty());
        assert(out@ + Seq::<char>::empty() =~= out@);
    }
    out
}

/// A path already in raw form stays as it is.
pub proof fn lemma_raw_idempotent_on_raw(s: Seq<char>)
    requires
        contains_sub(s, "/dev/rdisk"@),
    ensures
        raw_device_spec(s) == s,
{
}

/// The raw transform is idempotent: the raw form of `/dev/disk…` contains
/// `/dev/rdisk`, so a second pass changes nothing.
pub proof fn lemma_raw_idempotent(s: Seq<char>)
    requires
        has_prefix(s, "/dev/disk"@),
    ensures
        raw_device_spec(raw_device_spec(s)) == raw_device_spec(s),
{
    if !contains_sub(s, "/dev/rdisk"@) {
        let r = "/dev/r"@ + s.skip(5);
        reveal_strlit("/dev/r");
        reveal_strlit("/dev/disk");
        reveal_strlit("/dev/rdisk");
        assert(s.subrange(0, 9) == "/dev/disk"@);
        assert forall|j: int| 0 <= j < 9 implies s[j] == "/dev/disk"@[j] by {
            assert(s.subrange(0, 9)[j] == s[j]);
        }
        assert(r.subrange(0, 10) =~= "/dev/rdisk"@);
        assert(match_at(r, "/dev/rdisk"@, 0));
    }
}

} // verus!
