//! Helpers on text (with their meaning stated over `Seq<char>`) and the
//! naming of project files.

use vstd::prelude::*;

verus! {

/// The destination written into a new project file; it must be replaced by
/// hand before the project can be synced.
pub const SORRY_MESSAGE: &'static str = "<CURRENTLY HAS TO BE FILLED IN MANUALLY SORRY>";

/// Appends one character to a string.
///
/// Calls std's `String::push`, which its documentation describes as
/// appending the given `char` to the end of the `String`.
#[verifier::external_body]
pub(crate) fn push_char(s: &mut String, c: char)
    ensures
        final(s)@ == old(s)@.push(c),
{
    s.push(c);
}

/// The characters of `s`, in order.
pub fn chars_of(s: &str) -> (r: Vec<char>)
    ensures
        r@ == s@,
{
    let n = s.unicode_len();
    let mut v: Vec<char> = Vec::new();
    let mut i: usize = 0;
    while i < n
        invariant
            n == s@.len(),
            i <= n,
            v@ == s@.subrange(0, i as int),
        decreases n - i,
    {
        v.push(s.get_char(i));
        i = i + 1;
    }
    v
}

/// Whether two character sequences are equal.
pub fn chars_eq(a: &[char], b: &[char]) -> (r: bool)
    ensures
        r == (a@ == b@),
{
    if a.len() != b.len() {
        return false;
    }
    let mut i: usize = 0;
    while i < a.len()
        invariant
            a@.len() == b@.len(),
            i <= a@.len(),
            a@.subrange(0, i as int) == b@.subrange(0, i as int),
        decreases a.len() - i,
    {
        if a[i] != b[i] {
            assert(a@[i as int] != b@[i as int]);
            return false;
        }
        assert(a@.subrange(0, i + 1) == a@.subrange(0, i as int).push(a@[i as int]));
        assert(b@.subrange(0, i + 1) == b@.subrange(0, i as int).push(b@[i as int]));
        i = i + 1;
    }
    assert(a@ == a@.subrange(0, a@.len() as int));
    assert(b@ == b@.subrange(0, b@.len() as int));
    true
}

/// Whether two strings hold the same text.
pub fn text_eq(a: &str, b: &str) -> (r: bool)
    ensures
        r == (a@ == b@),
{
    let ca = chars_of(a);
    let cb = chars_of(b);
    chars_eq(ca.as_slice(), cb.as_slice())
}

/// `suffix` is a suffix of `s` (the empty sequence is a suffix of every
/// sequence).
pub open spec fn ends_with(s: Seq<char>, suffix: Seq<char>) -> bool {
    &&& suffix.len() <= s.len()
    &&& s.subrange(s.len() - suffix.len(), s.len() as int) == suffix
}

/// Whether `s` ends with `suffix`.
pub fn text_ends_with(s: &str, suffix: &str) -> (r: bool)
    ensures
        r == ends_with(s@, suffix@),
{
    let cs = chars_of(s);
    let cx = chars_of(suffix);
    if cx.len() > cs.len() {
        return false;
    }
    let n = cs.len();
    let off = n - cx.len();
    let mut i: usize = 0;
    while i < cx.len()
        invariant
            n == cs@.len(),
            cs@ == s@,
            cx@ == suffix@,
            off + cx@.len() == cs@.len(),
            i <= cx@.len(),
            forall|j: int| 0 <= j < i ==> cs@[off + j] == cx@[j],
        decreases cx.len() - i,
    {
        if cs[off + i] != cx[i] {
            assert(s@.subrange(s@.len() - suffix@.len(), s@.len() as int)[i as int] != suffix@[i as int]);
            return false;
        }
        i = i + 1;
    }
    assert(s@.subrange(s@.len() - suffix@.len(), s@.len() as int) =~= suffix@);
    true
}

/// What `add_extension_if_missing` makes of `s`: `s` itself when it already
/// ends with `extension`, else `s` followed by `extension`.
pub open spec fn with_extension(s: Seq<char>, extension: Seq<char>) -> Seq<char> {
    if ends_with(s, extension) {
        s
    } else {
        s + extension
    }
}

/// After `add_extension_if_missing` the text ends with the extension, and
/// adding the extension again changes nothing.
pub proof fn law_extension_added_once(s: Seq<char>, extension: Seq<char>)
    ensures
        ends_with(with_extension(s, extension), extension),
        with_extension(with_extension(s, extension), extension) == with_extension(s, extension),
{
    if !ends_with(s, extension) {
        let t = s + extension;
        assert(t.subrange(t.len() - extension.len(), t.len() as int) =~= extension);
    }
}

/// Appends `extension` to `s` unless `s` already ends with it.
pub fn add_extension_if_missing(s: String, extension: &str) -> (r: String)
    ensures
        r@ == with_extension(s@, extension@),
{
    if !text_ends_with(s.as_str(), extension) {
        let mut s = s;
        s.append(extension);
        s
    } else {
        s
    }
}


/// The character of the decimal digit `d` (`0 <= d < 10`).
pub open spec fn digit_char(d: int) -> char {
    if d == 0 {
        '0'
    } else if d == 1 {
        '1'
    } else if d == 2 {
        '2'
    } else if d == 3 {
        '3'
    } else if d == 4 {
        '4'
    } else if d == 5 {
        '5'
    } else if d == 6 {
        '6'
    } else if d == 7 {
        '7'
    } else if d == 8 {
        '8'
    } else {
        '9'
    }
}

/// Whether `c` is one of the characters `0` to `9`.
pub open spec fn is_digit(c: char) -> bool {
    exists|d: int| 0 <= d < 10 && c == #[trigger] digit_char(d)
}

/// The decimal text of `n`, without sign or leading zeros.
pub open spec fn decimal(n: nat) -> Seq<char>
    decreases n,
{
    if n < 10 {
        seq![digit_char(n as int)]
    } else {
        decimal(n / 10).push(digit_char((n % 10) as int))
    }
}

/// Distinct digits have distinct characters.
proof fn lemma_digit_char_injective(a: int, b: int)
    requires
        0 <= a < 10,
        0 <= b < 10,
        digit_char(a) == digit_char(b),
    ensures
        a == b,
{
}

/// The decimal text of a number is not empty, its last character is a
/// digit, and it has at least two characters from 10 on.
pub proof fn lemma_decimal_shape(n: nat)
    ensures
        decimal(n).len() >= 1,
        n >= 10 ==> decimal(n).len() >= 2,
        is_digit(decimal(n).last()),
    decreases n,
{
    if n >= 10 {
        lemma_decimal_shape(n / 10);
        assert(decimal(n).last() == digit_char((n % 10) as int));
        assert(is_digit(digit_char((n % 10) as int)));
    } else {
        assert(is_digit(digit_char(n as int)));
    }
}

/// Distinct numbers have distinct decimal texts.
pub proof fn lemma_decimal_injective(a: nat, b: nat)
    requires
        decimal(a) == decimal(b),
    ensures
        a == b,
    decreases a,
{
    lemma_decimal_shape(a);
    lemma_decimal_shape(b);
    if a < 10 && b < 10 {
        assert(decimal(a)[0] == digit_char(a as int));
        assert(decimal(b)[0] == digit_char(b as int));
        lemma_digit_char_injective(a as int, b as int);
    } else if a >= 10 && b >= 10 {
        assert(decimal(a).last() == digit_char((a % 10) as int));
        assert(decimal(b).last() == digit_char((b % 10) as int));
        lemma_digit_char_injective((a % 10) as int, (b % 10) as int);
        assert(decimal(a).drop_last() == decimal(a / 10));
        assert(decimal(b).drop_last() == decimal(b / 10));
        lemma_decimal_injective(a / 10, b / 10);
    } else {
        assert(decimal(a).len() != decimal(b).len());
    }
}

/// The character of the decimal digit `d`.
fn digit_of(d: u64) -> (c: char)
    requires
        d < 10,
    ensures
        c == digit_char(d as int),
{
    if d == 0 {
        '0'
    } else if d == 1 {
        '1'
    } else if d == 2 {
        '2'
    } else if d == 3 {
        '3'
    } else if d == 4 {
        '4'
    } else if d == 5 {
        '5'
    } else if d == 6 {
        '6'
    } else if d == 7 {
        '7'
    } else if d == 8 {
        '8'
    } else {
        '9'
    }
}

/// Appends the decimal text of `n` to `s`.
pub fn push_decimal(s: &mut String, n: u64)
    ensures
        final(s)@ == old(s)@ + decimal(n as nat),
    decreases n,
{
    if n >= 10 {
        push_decimal(s, n / 10);
    }
    let ghost mid = s@;
    push_char(s, digit_of(n % 10));
    proof {
        if n >= 10 {
            assert(mid == old(s)@ + decimal((n / 10) as nat));
            assert(old(s)@ + decimal(n as nat) == (old(s)@ + decimal((n / 10) as nat)).push(
                digit_char((n % 10) as int),
            ));
        } else {
            assert(decimal(n as nat) == seq![digit_char(n as int)]);
            assert(old(s)@ + decimal(n as nat) == old(s)@.push(digit_char(n as int)));
        }
    }
}

/// Whether `c` is white space in the sense of `char::is_whitespace` (the
/// Unicode `White_Space` property).
pub open spec fn is_white_space(c: char) -> bool {
    ||| ('\u{9}' <= c && c <= '\u{d}')
    ||| c == ' '
    ||| c == '\u{85}'
    ||| c == '\u{a0}'
    ||| c == '\u{1680}'
    ||| ('\u{2000}' <= c && c <= '\u{200a}')
    ||| c == '\u{2028}'
    ||| c == '\u{2029}'
    ||| c == '\u{202f}'
    ||| c == '\u{205f}'
    ||| c == '\u{3000}'
}

/// Whether `c` is white space.
pub fn white_space(c: char) -> (r: bool)
    ensures
        r == is_white_space(c),
{
    ('\u{9}' <= c && c <= '\u{d}') || c == ' ' || c == '\u{85}' || c == '\u{a0}' || c == '\u{1680}'
        || ('\u{2000}' <= c && c <= '\u{200a}') || c == '\u{2028}' || c == '\u{2029}' || c
        == '\u{202f}' || c == '\u{205f}' || c == '\u{3000}'
}

/// `s` without its leading and trailing white space: `s[start..end]` where
/// everything before `start` and from `end` on is white space and, unless
/// the result is empty, `s[start]` and `s[end - 1]` are not.
pub open spec fn trimmed_at(s: Seq<char>, start: int, end: int) -> bool {
    &&& 0 <= start <= end <= s.len()
    &&& forall|i: int| 0 <= i < start ==> is_white_space(#[trigger] s[i])
    &&& forall|i: int| end <= i < s.len() ==> is_white_space(#[trigger] s[i])
    &&& start < end ==> !is_white_space(s[start]) && !is_white_space(s[end - 1])
    &&& start == end ==> start == s.len()
}

/// `s` with leading and trailing white space removed, as `str::trim` does.
pub open spec fn trimmed(s: Seq<char>) -> Seq<char> {
    let (start, end) = choose|start: int, end: int| trimmed_at(s, start, end);
    s.subrange(start, end)
}

/// The bounds of the trimmed part are unique.
pub proof fn lemma_trimmed_unique(s: Seq<char>, a0: int, a1: int, b0: int, b1: int)
    requires
        trimmed_at(s, a0, a1),
        trimmed_at(s, b0, b1),
    ensures
        a0 == b0 && a1 == b1,
{
    if a0 < a1 && b0 < b1 {
        if a0 < b0 {
            assert(is_white_space(s[a0]));
        }
        if b0 < a0 {
            assert(is_white_space(s[b0]));
        }
        if a1 < b1 {
            assert(is_white_space(s[b1 - 1]));
        }
        if b1 < a1 {
            assert(is_white_space(s[a1 - 1]));
        }
    } else if a0 < a1 {
        assert(is_white_space(s[a0]));
    } else if b0 < b1 {
        assert(is_white_space(s[b0]));
    }
}

/// The characters of `s` with leading and trailing white space removed.
pub fn trim_chars(s: &str) -> (r: Vec<char>)
    ensures
        r@ == trimmed(s@),
{
    let cs = chars_of(s);
    let n = cs.len();
    let mut start: usize = 0;
    while start < n && white_space(cs[start])
        invariant
            n == cs@.len(),
            cs@ == s@,
            start <= n,
            forall|i: int| 0 <= i < start ==> is_white_space(#[trigger] cs@[i]),
        decreases n - start,
    {
        start = start + 1;
    }
    let mut end: usize = n;
    if start < n {
        while end > start && white_space(cs[end - 1])
            invariant
                n == cs@.len(),
                cs@ == s@,
                start < n,
                !is_white_space(cs@[start as int]),
                start <= end <= n,
                end > start,
                forall|i: int| end <= i < n ==> is_white_space(#[trigger] cs@[i]),
            decreases end,
        {
            end = end - 1;
        }
    }
    assert(trimmed_at(s@, start as int, end as int));
    proof {
        let (a, b) = choose|a: int, b: int| trimmed_at(s@, a, b);
        lemma_trimmed_unique(s@, a, b, start as int, end as int);
    }
    let mut out: Vec<char> = Vec::new();
    let mut i: usize = start;
    while i < end
        invariant
            n == cs@.len(),
            start <= i <= end <= n,
            out@ == cs@.subrange(start as int, i as int),
        decreases end - i,
    {
        out.push(cs[i]);
        i = i + 1;
    }
    out
}

} // verus!
