//! The name of the lock file that keeps two receivers with the same name and
//! port from running at once. Taking the lock is the application's part.

use vstd::prelude::*;
use crate::text::{push_char, push_decimal, strip_pred, trim_by, trim_class, decimal, lemma_trim_shape, StripClass};

verus! {

/// ASCII letters and digits.
pub open spec fn is_ascii_alnum(c: char) -> bool {
    let u = c as u32;
    ||| 48 <= u <= 57
    ||| 65 <= u <= 90
    ||| 97 <= u <= 122
}

/// `c` with an ASCII capital letter replaced by its small letter.
pub open spec fn ascii_lower(c: char) -> char {
    let u = c as u32;
    if 65 <= u <= 90 {
        ((u + 32) as u8) as char
    } else {
        c
    }
}

/// Each character of a name as it stands in a file name: letters and digits
/// in lower case, anything else a hyphen.
pub open spec fn sanitize_char(c: char) -> char {
    if is_ascii_alnum(c) {
        ascii_lower(c)
    } else {
        '-'
    }
}

/// `sanitize_char` applied to every character.
pub open spec fn sanitize_chars(s: Seq<char>) -> Seq<char> {
    Seq::new(s.len(), |i: int| sanitize_char(s[i]))
}

/// The fallback used when nothing of a name is left.
pub open spec fn default_instance_name() -> Seq<char> {
    seq!['i', 'n', 's', 't', 'a', 'n', 'c', 'e']
}

/// A name made safe for a file name: characters mapped by `sanitize_char`,
/// leading and trailing hyphens removed, and `instance` when nothing is left.
pub open spec fn sanitized(name: Seq<char>) -> Seq<char> {
    let t = trim_by(sanitize_chars(name), strip_pred(StripClass::Dash));
    if t.len() == 0 {
        default_instance_name()
    } else {
        t
    }
}

/// The lock file name for a receiver: `shairport-sync-rs-<name>-<port>.lock`.
pub open spec fn lock_file_name_spec(name: Seq<char>, port: u16) -> Seq<char> {
    "shairport-sync-rs-"@ + sanitized(name) + seq!['-'] + decimal(port as nat) + ".lock"@
}

/// Characters that can stand anywhere in a file name: ASCII small letters,
/// digits and the hyphen.
pub open spec fn is_file_safe(c: char) -> bool {
    let u = c as u32;
    ||| 48 <= u <= 57
    ||| 97 <= u <= 122
    ||| c == '-'
}

/// A sanitized name is never empty, holds only small letters, digits and
/// hyphens, and neither starts nor ends with a hyphen.
pub proof fn lemma_sanitized_is_file_safe(name: Seq<char>)
    ensures
        sanitized(name).len() > 0,
        forall|i: int| 0 <= i < sanitized(name).len() ==> is_file_safe(#[trigger] sanitized(name)[i]),
        sanitized(name)[0] != '-',
        sanitized(name).last() != '-',
{
    let m = sanitize_chars(name);
    let p = strip_pred(StripClass::Dash);
    let (a, b) = lemma_trim_shape(m, p);
    let t = trim_by(m, p);
    assert forall|i: int| 0 <= i < m.len() implies is_file_safe(#[trigger] m[i]) by {
        let u = name[i] as u32;
        if 65 <= u <= 90 {
            assert((((u + 32) as u8) as char) as u32 == u + 32);
        }
    }
    assert forall|i: int| 0 <= i < t.len() implies is_file_safe(#[trigger] t[i]) by {
        assert(t[i] == m[a + i]);
    }
    if t.len() == 0 {
        assert(sanitized(name) == default_instance_name());
    }
}

/// Every ASCII digit and small letter of a name is kept as it is, every ASCII
/// capital becomes its small letter, and every other character becomes one
/// hyphen; the result then loses only the hyphens at its two ends, and a
/// name with nothing left becomes `instance`.
pub proof fn lemma_sanitize_keeps_alnum(name: Seq<char>) -> (bounds: (int, int))
    ensures
        sanitize_chars(name).len() == name.len(),
        forall|i: int|
            0 <= i < name.len() ==> {
                let u = name[i] as u32;
                let c = #[trigger] sanitize_chars(name)[i];
                &&& (48 <= u <= 57 || 97 <= u <= 122) ==> c == name[i]
                &&& 65 <= u <= 90 ==> c as u32 == u + 32
                &&& !(48 <= u <= 57 || 97 <= u <= 122 || 65 <= u <= 90) ==> c == '-'
            },
        0 <= bounds.0 <= bounds.1 <= name.len(),
        forall|i: int| 0 <= i < bounds.0 ==> #[trigger] sanitize_chars(name)[i] == '-',
        forall|i: int| bounds.1 <= i < name.len() ==> #[trigger] sanitize_chars(name)[i] == '-',
        bounds.0 < bounds.1 ==> sanitized(name) == sanitize_chars(name).subrange(bounds.0, bounds.1),
        bounds.0 == bounds.1 ==> sanitized(name) == seq!['i', 'n', 's', 't', 'a', 'n', 'c', 'e'],
{
    let m = sanitize_chars(name);
    let p = strip_pred(StripClass::Dash);
    let (a, b) = lemma_trim_shape(m, p);
    assert forall|i: int| 0 <= i < name.len() implies {
        let u = name[i] as u32;
        let c = #[trigger] sanitize_chars(name)[i];
        &&& (48 <= u <= 57 || 97 <= u <= 122) ==> c == name[i]
        &&& 65 <= u <= 90 ==> c as u32 == u + 32
        &&& !(48 <= u <= 57 || 97 <= u <= 122 || 65 <= u <= 90) ==> c == '-'
    } by {
        let u = name[i] as u32;
        if 65 <= u <= 90 {
            assert((((u + 32) as u8) as char) as u32 == u + 32);
        }
    }
    assert forall|i: int| 0 <= i < a implies #[trigger] m[i] == '-' by {
        assert(p(m[i]));
    }
    assert forall|i: int| b <= i < name.len() implies #[trigger] m[i] == '-' by {
        assert(p(m[i]));
    }
    (a, b)
}

/// A name made only of ASCII small letters and digits is used unchanged.
pub proof fn lemma_sanitize_keeps_safe_name(name: Seq<char>)
    requires
        name.len() > 0,
        forall|i: int|
            0 <= i < name.len() ==> {
                let u = #[trigger] name[i] as u32;
                48 <= u <= 57 || 97 <= u <= 122
            },
    ensures
        sanitized(name) == name,
{
    let (a, b) = lemma_sanitize_keeps_alnum(name);
    let m = sanitize_chars(name);
    assert(m =~= name) by {
        assert forall|i: int| 0 <= i < name.len() implies m[i] == name[i] by {
            let u = name[i] as u32;
            assert(48 <= u <= 57 || 97 <= u <= 122);
        }
    }
    if a > 0 {
        assert(m[0] == '-');
        assert(name[0] == '-');
    }
    if b < name.len() {
        assert(m[b] == '-');
        assert(name[b] == '-');
    }
    assert(m.subrange(0, name.len() as int) =~= name);
}

fn sanitize_one(c: char) -> (r: char)
    ensures
        r == sanitize_char(c),
{
    let u: u32 = c as u32;
    if 65 <= u && u <= 90 {
        ((u + 32) as u8) as char
    } else if (48 <= u && u <= 57) || (97 <= u && u <= 122) {
        c
    } else {
        '-'
    }
}

/// Makes a receiver name safe to use inside a file name.
pub fn sanitize_name(name: &str) -> (r: String)
    ensures
        r@ == sanitized(name@),
{
    let n: usize = name.unicode_len();
    let mut out = String::new();
    for i in 0..n
        invariant
            n == name@.len(),
            out@ =~= sanitize_chars(name@.take(i as int)),
    {
        let c = name.get_char(i);
        push_char(&mut out, sanitize_one(c));
        assert(name@.take(i + 1) =~= name@.take(i as int).push(c));
    }
    assert(name@.take(n as int) =~= name@);
    let trimmed = trim_class(out.as_str(), StripClass::Dash);
    if trimmed.as_str().is_empty() {
        let r = String::from_str("instance");
        proof {
            reveal_strlit("instance");
        }
        assert(r@ =~= default_instance_name());
        r
    } else {
        trimmed
    }
}

/// The file name of the lock that a receiver named `name` on `port` takes.
pub fn lock_file_name(name: &str, port: u16) -> (r: String)
    ensures
        r@ == lock_file_name_spec(name@, port),
{
    let mut out = String::from_str("shairport-sync-rs-");
    let s = sanitize_name(name);
    out.append(s.as_str());
    push_char(&mut out, '-');
    push_decimal(&mut out, port);
    out.append(".lock");
    assert(out@ =~= lock_file_name_spec(name@, port));
    out
}

} // verus!
