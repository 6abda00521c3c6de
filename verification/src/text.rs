//! Text helpers: Unicode whitespace, trimming, comparing and decimal
//! rendering.

use vstd::prelude::*;

verus! {

/// The characters with the Unicode `White_Space` property, which std's
/// `char::is_whitespace` and `str::trim` go by.
pub open spec fn is_unicode_whitespace(c: char) -> bool {
    let u = c as u32;
    ||| 0x09 <= u <= 0x0d
    ||| u == 0x20
    ||| u == 0x85
    ||| u == 0xa0
    ||| u == 0x1680
    ||| 0x2000 <= u <= 0x200a
    ||| u == 0x2028
    ||| u == 0x2029
    ||| u == 0x202f
    ||| u == 0x205f
    ||| u == 0x3000
}

/// `s` without its leading whitespace.
pub open spec fn trim_start_ws(s: Seq<char>) -> Seq<char>
    decreases s.len(),
{
    if s.len() > 0 && is_unicode_whitespace(s[0]) {
        trim_start_ws(s.drop_first())
    } else {
        s
    }
}

/// `s` without its trailing whitespace.
pub open spec fn trim_end_ws(s: Seq<char>) -> Seq<char>
    decreases s.len(),
{
    if s.len() > 0 && is_unicode_whitespace(s.last()) {
        trim_end_ws(s.drop_last())
    } else {
        s
    }
}

/// `s` without its leading and trailing whitespace.
pub open spec fn trim_ws(s: Seq<char>) -> Seq<char> {
    trim_end_ws(trim_start_ws(s))
}

/// Whether `c` has the Unicode `White_Space` property.
pub fn is_whitespace(c: char) -> (b: bool)
    ensures
        b == is_unicode_whitespace(c),
{
    let u = c as u32;
    (0x09 <= u && u <= 0x0d) || u == 0x20 || u == 0x85 || u == 0xa0 || u == 0x1680 || (0x2000 <= u
        && u <= 0x200a) || u == 0x2028 || u == 0x2029 || u == 0x202f || u == 0x205f || u == 0x3000
}

/// `s` without its leading and trailing characters that have the Unicode
/// `White_Space` property, as `str::trim` gives it.
pub fn trim(s: &str) -> (t: &str)
    ensures
        t@ == trim_ws(s@),
{
    let n = s.unicode_len();
    let mut start: usize = 0;
    assert(s@.subrange(0, n as int) =~= s@);
    while start < n && is_whitespace(s.get_char(start))
        invariant
            n == s@.len(),
            start <= n,
            trim_start_ws(s@) == trim_start_ws(s@.subrange(start as int, n as int)),
        decreases n - start,
    {
        assert(s@.subrange(start as int, n as int).drop_first() =~= s@.subrange(
            start + 1,
            n as int,
        ));
        start += 1;
    }
    let ghost rest = s@.subrange(start as int, n as int);
    assert(trim_start_ws(rest) == rest);
    let mut end: usize = n;
    while end > start && is_whitespace(s.get_char(end - 1))
        invariant
            n == s@.len(),
            start <= end <= n,
            trim_ws(s@) == trim_end_ws(s@.subrange(start as int, end as int)),
        decreases end - start,
    {
        assert(s@.subrange(start as int, end as int).drop_last() =~= s@.subrange(
            start as int,
            end - 1,
        ));
        end -= 1;
    }
    let t = s.substring_char(start, end);
    assert(trim_end_ws(t@) == t@);
    t
}

/// `String::push`: appends one character.
#[verifier::external_body]
pub(crate) fn push_char(s: &mut String, c: char)
    ensures
        final(s)@ == old(s)@.push(c),
{
    s.push(c)
}

/// Whether `a` and `b` hold the same characters.
pub fn same_text(a: &str, b: &str) -> (r: bool)
    ensures
        r == (a@ == b@),
{
    let n = a.unicode_len();
    if n != b.unicode_len() {
        return false;
    }
    let mut i: usize = 0;
    while i < n
        invariant
            n == a@.len(),
            n == b@.len(),
            i <= n,
            forall|j: int| 0 <= j < i ==> a@[j] == b@[j],
        decreases n - i,
    {
        if a.get_char(i) != b.get_char(i) {
            return false;
        }
        i += 1;
    }
    assert(a@ =~= b@);
    true
}

/// The ASCII digit for `d`, which is below 10.
pub open spec fn digit_char(d: nat) -> char {
    (48 + d) as char
}

/// The decimal rendering of `n`, without leading zeros.
pub open spec fn decimal(n: nat) -> Seq<char>
    decreases n,
{
    if n < 10 {
        seq![digit_char(n)]
    } else {
        decimal(n / 10).push(digit_char(n % 10))
    }
}

/// Appends the decimal rendering of `n` to `s`.
pub fn push_decimal(s: &mut String, n: u64)
    ensures
        final(s)@ == old(s)@ + decimal(n as nat),
    decreases n,
{
    if n >= 10 {
        push_decimal(s, n / 10);
    }
    let d: u8 = (n % 10) as u8;
    let c: char = (48u8 + d) as char;
    push_char(s, c);
    assert(decimal(n as nat) == (if n < 10 { seq![digit_char(n as nat)] } else {
        decimal((n / 10) as nat).push(digit_char((n % 10) as nat))
    }));
}

/// The decimal rendering of `n`.
pub fn decimal_string(n: u64) -> (s: String)
    ensures
        s@ == decimal(n as nat),
{
    let mut s = String::new();
    push_decimal(&mut s, n);
    assert(s@ == Seq::<char>::empty() + decimal(n as nat));
    s
}

} // verus!

verus! {

/// Trimming the start leaves nothing or a text that starts with a
/// non-whitespace character.
pub proof fn lemma_trim_start_ws(s: Seq<char>)
    ensures
        trim_start_ws(s).len() == 0 || !is_unicode_whitespace(trim_start_ws(s)[0]),
        trim_start_ws(s).len() <= s.len(),
    decreases s.len(),
{
    if s.len() > 0 && is_unicode_whitespace(s[0]) {
        lemma_trim_start_ws(s.drop_first());
    }
}

/// Trimming the end keeps a prefix, which is empty or ends with a
/// non-whitespace character.
pub proof fn lemma_trim_end_ws(s: Seq<char>)
    ensures
        trim_end_ws(s).len() <= s.len(),
        trim_end_ws(s) == s.take(trim_end_ws(s).len() as int),
        trim_end_ws(s).len() == 0 || !is_unicode_whitespace(trim_end_ws(s).last()),
        s.len() > 0 && !is_unicode_whitespace(s.last()) ==> trim_end_ws(s) == s,
    decreases s.len(),
{
    if s.len() > 0 && is_unicode_whitespace(s.last()) {
        lemma_trim_end_ws(s.drop_last());
        let r = trim_end_ws(s.drop_last());
        assert(s.drop_last().take(r.len() as int) == s.take(r.len() as int));
    } else {
        assert(s.take(s.len() as int) == s);
    }
}

/// Whether `s` has no leading and no trailing whitespace.
pub open spec fn is_trimmed(s: Seq<char>) -> bool {
    s.len() > 0 ==> !is_unicode_whitespace(s[0]) && !is_unicode_whitespace(s.last())
}

/// Trimming yields a trimmed text, and leaves a trimmed text as it is.
pub proof fn lemma_trim_ws(s: Seq<char>)
    ensures
        is_trimmed(trim_ws(s)),
        is_trimmed(s) ==> trim_ws(s) == s,
        trim_ws(s).len() <= s.len(),
{
    let a = trim_start_ws(s);
    lemma_trim_start_ws(s);
    lemma_trim_end_ws(a);
    let b = trim_end_ws(a);
    if b.len() > 0 {
        assert(b[0] == a[0]);
    }
    if is_trimmed(s) && s.len() > 0 {
        assert(a == s);
    }
}

} // verus!
