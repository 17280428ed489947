//! Character classes and small string transformations used across the crate:
//! Unicode whitespace, trimming, and decimal rendering of integers.

use vstd::prelude::*;

verus! {

/// The Unicode `White_Space` property, the set that `char::is_whitespace`
/// and `str::trim` use.
pub open spec fn is_white_space(c: char) -> bool {
    let u = c as u32;
    ||| 0x09 <= u <= 0x0D
    ||| u == 0x20
    ||| u == 0x85
    ||| u == 0xA0
    ||| u == 0x1680
    ||| 0x2000 <= u <= 0x200A
    ||| u == 0x2028
    ||| u == 0x2029
    ||| u == 0x202F
    ||| u == 0x205F
    ||| u == 0x3000
}

/// A text is blank when every one of its characters is whitespace
/// (the empty text is blank).
pub open spec fn is_blank(s: Seq<char>) -> bool {
    forall|i: int| 0 <= i < s.len() ==> is_white_space(#[trigger] s[i])
}

/// Decides `is_white_space`.
pub fn is_whitespace_char(c: char) -> (r: bool)
    ensures
        r == is_white_space(c),
{
    let u: u32 = c as u32;
    (0x09 <= u && u <= 0x0D) || u == 0x20 || u == 0x85 || u == 0xA0 || u == 0x1680 || (0x2000
        <= u && u <= 0x200A) || u == 0x2028 || u == 0x2029 || u == 0x202F || u == 0x205F || u
        == 0x3000
}

/// Whether `s` is empty once surrounding whitespace is removed.
pub fn str_is_blank(s: &str) -> (r: bool)
    ensures
        r == is_blank(s@),
{
    let n: usize = s.unicode_len();
    let mut i: usize = 0;
    while i < n
        invariant
            n == s@.len(),
            i <= n,
            forall|j: int| 0 <= j < i ==> is_white_space(#[trigger] s@[j]),
        decreases n - i,
    {
        let c = s.get_char(i);
        if !is_whitespace_char(c) {
            return false;
        }
        i = i + 1;
    }
    true
}


/// Removes from the front of `s` every character for which `strip` holds,
/// stopping at the first one for which it does not.
pub open spec fn trim_start_by(s: Seq<char>, strip: spec_fn(char) -> bool) -> Seq<char>
    decreases s.len(),
{
    if s.len() > 0 && strip(s[0]) {
        trim_start_by(s.drop_first(), strip)
    } else {
        s
    }
}

/// Removes from the back of `s` every character for which `strip` holds,
/// stopping at the last one for which it does not.
pub open spec fn trim_end_by(s: Seq<char>, strip: spec_fn(char) -> bool) -> Seq<char>
    decreases s.len(),
{
    if s.len() > 0 && strip(s.last()) {
        trim_end_by(s.drop_last(), strip)
    } else {
        s
    }
}

/// `s` without its leading and trailing characters of the class `strip`.
pub open spec fn trim_by(s: Seq<char>, strip: spec_fn(char) -> bool) -> Seq<char> {
    trim_end_by(trim_start_by(s, strip), strip)
}

/// The characters that a trim removes.
pub enum StripClass {
    /// Unicode whitespace, as `str::trim` removes it.
    Whitespace,
    /// The hyphen `-`, as `str::trim_matches('-')` removes it.
    Dash,
}

/// The predicate of a strip class.
pub open spec fn strip_pred(class: StripClass) -> spec_fn(char) -> bool {
    match class {
        StripClass::Whitespace => |c: char| is_white_space(c),
        StripClass::Dash => |c: char| c == '-',
    }
}

/// `s` without surrounding Unicode whitespace.
pub open spec fn trim(s: Seq<char>) -> Seq<char> {
    trim_by(s, strip_pred(StripClass::Whitespace))
}

/// Decides whether `c` belongs to `class`.
pub fn strips(class: &StripClass, c: char) -> (r: bool)
    ensures
        r == strip_pred(*class)(c),
{
    match class {
        StripClass::Whitespace => is_whitespace_char(c),
        StripClass::Dash => c == '-',
    }
}

/// A copy of `s` without its leading and trailing characters of `class`.
pub fn trim_class(s: &str, class: StripClass) -> (r: String)
    ensures
        r@ == trim_by(s@, strip_pred(class)),
{
    let ghost p = strip_pred(class);
    let n: usize = s.unicode_len();
    let mut start: usize = 0;
    assert(s@.subrange(0, n as int) =~= s@);
    while start < n
        invariant
            n == s@.len(),
            start <= n,
            p == strip_pred(class),
            trim_start_by(s@, p) == trim_start_by(s@.subrange(start as int, n as int), p),
        ensures
            start <= n,
            trim_start_by(s@, p) == trim_start_by(s@.subrange(start as int, n as int), p),
            start == n || !p(s@[start as int]),
        decreases n - start,
    {
        let c = s.get_char(start);
        if !strips(&class, c) {
            break;
        }
        assert(s@.subrange(start as int, n as int).drop_first() =~= s@.subrange(
            start + 1,
            n as int,
        ));
        start = start + 1;
    }
    assert(trim_start_by(s@, p) == s@.subrange(start as int, n as int));
    let mut end: usize = n;
    while end > start
        invariant
            n == s@.len(),
            start <= end <= n,
            p == strip_pred(class),
            trim_by(s@, p) == trim_end_by(s@.subrange(start as int, end as int), p),
        ensures
            start <= end <= n,
            trim_by(s@, p) == trim_end_by(s@.subrange(start as int, end as int), p),
            end == start || !p(s@[end - 1]),
        decreases end - start,
    {
        let c = s.get_char(end - 1);
        if !strips(&class, c) {
            break;
        }
        assert(s@.subrange(start as int, end as int).drop_last() =~= s@.subrange(
            start as int,
            end - 1,
        ));
        end = end - 1;
    }
    assert(trim_end_by(s@.subrange(start as int, end as int), p) == s@.subrange(
        start as int,
        end as int,
    ));
    String::from_str(s.substring_char(start, end))
}

/// `str::trim` as an owned string.
pub fn trim_whitespace(s: &str) -> (r: String)
    ensures
        r@ == trim(s@),
{
    trim_class(s, StripClass::Whitespace)
}


/// What a trim from the front leaves is a suffix of the text, and it does
/// not start with a stripped character.
pub proof fn lemma_trim_start_shape(s: Seq<char>, strip: spec_fn(char) -> bool) -> (k: int)
    ensures
        0 <= k <= s.len(),
        trim_start_by(s, strip) == s.subrange(k, s.len() as int),
        trim_start_by(s, strip).len() > 0 ==> !strip(trim_start_by(s, strip)[0]),
        forall|i: int| 0 <= i < k ==> strip(#[trigger] s[i]),
    decreases s.len(),
{
    if s.len() > 0 && strip(s[0]) {
        let k = lemma_trim_start_shape(s.drop_first(), strip);
        assert(s.drop_first().subrange(k, s.len() - 1) =~= s.subrange(k + 1, s.len() as int));
        assert forall|i: int| 0 <= i < k + 1 implies strip(#[trigger] s[i]) by {
            if i > 0 {
                assert(s[i] == s.drop_first()[i - 1]);
            }
        }
        k + 1
    } else {
        assert(s.subrange(0, s.len() as int) =~= s);
        0
    }
}

/// What a trim from the back leaves is a prefix of the text, and it does
/// not end with a stripped character.
pub proof fn lemma_trim_end_shape(s: Seq<char>, strip: spec_fn(char) -> bool) -> (k: int)
    ensures
        0 <= k <= s.len(),
        trim_end_by(s, strip) == s.subrange(0, k),
        trim_end_by(s, strip).len() > 0 ==> !strip(trim_end_by(s, strip).last()),
        forall|i: int| k <= i < s.len() ==> strip(#[trigger] s[i]),
    decreases s.len(),
{
    if s.len() > 0 && strip(s.last()) {
        let k = lemma_trim_end_shape(s.drop_last(), strip);
        assert(s.drop_last().subrange(0, k) =~= s.subrange(0, k));
        assert forall|i: int| k <= i < s.len() implies strip(#[trigger] s[i]) by {
            if i < s.len() - 1 {
                assert(s[i] == s.drop_last()[i]);
            }
        }
        k
    } else {
        assert(s.subrange(0, s.len() as int) =~= s);
        s.len() as int
    }
}

/// A trimmed text is a piece of the untrimmed one that neither starts nor ends
/// with a stripped character.
pub proof fn lemma_trim_shape(s: Seq<char>, strip: spec_fn(char) -> bool) -> (bounds: (int, int))
    ensures
        0 <= bounds.0 <= bounds.1 <= s.len(),
        trim_by(s, strip) == s.subrange(bounds.0, bounds.1),
        trim_by(s, strip).len() > 0 ==> !strip(trim_by(s, strip)[0]) && !strip(
            trim_by(s, strip).last(),
        ),
        forall|i: int| 0 <= i < bounds.0 ==> strip(#[trigger] s[i]),
        forall|i: int| bounds.1 <= i < s.len() ==> strip(#[trigger] s[i]),
{
    let a = lemma_trim_start_shape(s, strip);
    let t = trim_start_by(s, strip);
    let b = lemma_trim_end_shape(t, strip);
    assert(t.subrange(0, b) =~= s.subrange(a, a + b));
    assert forall|i: int| a + b <= i < s.len() implies strip(#[trigger] s[i]) by {
        assert(s[i] == t[i - a]);
    }
    (a, a + b)
}

/// Trimming whitespace cuts exactly the whitespace at the two ends: the result
/// is a piece `s[a..b]` of the text, everything before `a` and from `b` on is
/// whitespace, and a nonempty result starts and ends with a character that is
/// not. It is empty exactly when the text is blank.
pub proof fn lemma_trim_whitespace_cuts_only_ends(s: Seq<char>) -> (bounds: (int, int))
    ensures
        0 <= bounds.0 <= bounds.1 <= s.len(),
        trim(s) == s.subrange(bounds.0, bounds.1),
        forall|i: int| 0 <= i < bounds.0 ==> is_white_space(#[trigger] s[i]),
        forall|i: int| bounds.1 <= i < s.len() ==> is_white_space(#[trigger] s[i]),
        trim(s).len() > 0 ==> !is_white_space(trim(s)[0]) && !is_white_space(trim(s).last()),
        trim(s).len() == 0 <==> is_blank(s),
{
    let p = strip_pred(StripClass::Whitespace);
    let (a, b) = lemma_trim_shape(s, p);
    assert forall|i: int| 0 <= i < a implies is_white_space(#[trigger] s[i]) by {
        assert(p(s[i]));
    }
    assert forall|i: int| b <= i < s.len() implies is_white_space(#[trigger] s[i]) by {
        assert(p(s[i]));
    }
    if trim(s).len() > 0 {
        assert(!p(trim(s)[0]));
        assert(!p(trim(s).last()));
        assert(trim(s)[0] == s[a]);
        assert(!is_blank(s));
    } else {
        assert(a == b);
        assert forall|i: int| 0 <= i < s.len() implies is_white_space(#[trigger] s[i]) by {
            if i < a {
            } else {
            }
        }
    }
    (a, b)
}

/// `String::push` from std: appends the character `c` to the end of `s`.
#[verifier::external_body]
pub(crate) fn push_char(s: &mut String, c: char)
    ensures
        final(s)@ == old(s)@.push(c),
{
    s.push(c);
}

/// The ASCII digit for `d`, which is below ten.
pub open spec fn digit_char(d: nat) -> char {
    ((48 + d) as u8) as char
}

/// The decimal rendering of `n`, most significant digit first, without
/// leading zeros (and `"0"` for zero), as `Display` writes integers.
pub open spec fn decimal(n: nat) -> Seq<char>
    decreases n,
{
    if n < 10 {
        seq![digit_char(n)]
    } else {
        decimal(n / 10).push(digit_char(n % 10))
    }
}

/// Appends the decimal rendering of `n` to `out`.
pub fn push_decimal(out: &mut String, n: u16)
    ensures
        final(out)@ == old(out)@ + decimal(n as nat),
    decreases n,
{
    if n >= 10 {
        push_decimal(out, n / 10);
    }
    let d: u8 = (n % 10) as u8;
    push_char(out, (48u8 + d) as char);
    assert(out@ =~= old(out)@ + decimal(n as nat));
}

} // verus!
