//! Input validation for UUIDs and shell-safe tokens.

use vstd::prelude::*;

use crate::strutil::str_eq;

verus! {

/// A hexadecimal digit, either case.
pub open spec fn is_hex_digit(c: char) -> bool {
    ('0' <= c && c <= '9') || ('a' <= c && c <= 'f') || ('A' <= c && c <= 'F')
}

/// The canonical 8-4-4-4-12 form: 36 characters, hyphens exactly at
/// positions 8, 13, 18 and 23, hexadecimal digits everywhere else.
pub open spec fn uuid_canonical(s: Seq<char>) -> bool {
    &&& s.len() == 36
    &&& forall|k: int|
        0 <= k < 36 ==> (if k == 8 || k == 13 || k == 18 || k == 23 {
            s[k] == '-'
        } else {
            is_hex_digit(s[k])
        })
}

/// A UUID argument is accepted: the literal `random`, or canonical form.
pub open spec fn uuid_ok(s: Seq<char>) -> bool {
    s == "random"@ || uuid_canonical(s)
}

/// Validate a UUID argument: `random`, or five hyphen-separated hex
/// groups of lengths 8-4-4-4-12.
pub fn validate_uuid(uuid: &str) -> (r: Result<(), String>)
    ensures
        r is Ok <==> uuid_ok(uuid@),
        r is Err ==> r->Err_0@ == "Invalid UUID format"@,
{
    if str_eq(uuid, "random") {
        return Ok(());
    }
    let n = uuid.unicode_len();
    if n != 36 {
        return Err(String::from_str("Invalid UUID format"));
    }
    let mut k: usize = 0;
    while k < 36
        invariant
            k <= 36,
            uuid@.len() == 36,
            uuid@ != "random"@,
            forall|t: int|
                0 <= t < k ==> (if t == 8 || t == 13 || t == 18 || t == 23 {
                    uuid@[t] == '-'
                } else {
                    is_hex_digit(uuid@[t])
                }),
        decreases 36 - k,
    {
        let c = uuid.get_char(k);
        if k == 8 || k == 13 || k == 18 || k == 23 {
            if c != '-' {
                return Err(String::from_str("Invalid UUID format"));
            }
        } else {
            let hex = (c >= '0' && c <= '9') || (c >= 'a' && c <= 'f') || (c >= 'A' && c <= 'F');
            if !hex {
                return Err(String::from_str("Invalid UUID format"));
            }
        }
        k = k + 1;
    }
    Ok(())
}

/// A character allowed in a token that later stands on a shell line.
pub open spec fn token_char_ok(c: char, allow_slash: bool) -> bool {
    ||| ('0' <= c && c <= '9')
    ||| ('a' <= c && c <= 'z')
    ||| ('A' <= c && c <= 'Z')
    ||| c == '_'
    ||| c == '-'
    ||| c == '.'
    ||| (allow_slash && c == '/')
}

/// Every character of the token is allowed.
pub open spec fn token_ok(s: Seq<char>, allow_slash: bool) -> bool {
    forall|k: int| 0 <= k < s.len() ==> token_char_ok(s[k], allow_slash)
}

/// Validate a value that will stand on a privileged shell line: only
/// alphanumerics, `_`, `-`, `.` and (optionally) `/` are allowed.  The
/// error names the offending field.
pub fn validate_token(value: &str, field: &str, allow_slash: bool) -> (r: Result<(), String>)
    ensures
        r is Ok <==> token_ok(value@, allow_slash),
        r is Err ==> r->Err_0@ == "Invalid characters in "@ + field@,
{
    let n = value.unicode_len();
    let mut k: usize = 0;
    while k < n
        invariant
            k <= n,
            n == value@.len(),
            forall|t: int| 0 <= t < k ==> token_char_ok(value@[t], allow_slash),
        decreases n - k,
    {
        let c = value.get_char(k);
        let ok = (c >= '0' && c <= '9') || (c >= 'a' && c <= 'z') || (c >= 'A' && c <= 'Z') || c
            == '_' || c == '-' || c == '.' || (allow_slash && c == '/');
        if !ok {
            let msg = String::from_str("Invalid characters in ");
            return Err(msg.concat(field));
        }
        k = k + 1;
    }
    Ok(())
}

} // verus!
