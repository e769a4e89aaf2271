//! Small helpers on character sequences and strings.
use vstd::prelude::*;

verus! {

/// Appends one character to a string.
///
/// Trusted: calls `String::push`, whose documentation says that it appends the
/// given `char` to the end of the string; the contract states exactly that.
#[verifier::external_body]
pub fn push_char(s: &mut String, c: char)
    ensures
        final(s)@ == old(s)@.push(c),
{
    s.push(c);
}

/// Whether two string slices hold the same characters.
pub fn same_text(a: &str, b: &str) -> (r: bool)
    ensures
        r == (a@ == b@),
{
    let n = a.unicode_len();
    let m = b.unicode_len();
    if n != m {
        return false;
    }
    let mut i: usize = 0;
    while i < n
        invariant
            n == a@.len(),
            m == b@.len(),
            n == m,
            i <= n,
            forall|j: int| 0 <= j < i ==> a@[j] == b@[j],
        decreases n - i,
    {
        if a.get_char(i) != b.get_char(i) {
            return false;
        }
        i = i + 1;
    }
    assert(a@ =~= b@);
    true
}

/// Builds a string from the characters `chars[start..end]`.
pub fn string_of(chars: &Vec<char>, start: usize, end: usize) -> (s: String)
    requires
        start <= end <= chars@.len(),
    ensures
        s@ == chars@.subrange(start as int, end as int),
{
    let mut s = String::new();
    let mut i = start;
    while i < end
        invariant
            start <= i <= end <= chars@.len(),
            s@ == chars@.subrange(start as int, i as int),
        decreases end - i,
    {
        push_char(&mut s, chars[i]);
        assert(chars@.subrange(start as int, i + 1) =~= chars@.subrange(start as int, i as int).push(chars@[i as int]));
        i = i + 1;
    }
    s
}

/// Collects the characters of a string slice into a vector.
pub fn chars_of(source: &str) -> (v: Vec<char>)
    ensures
        v@ == source@,
{
    let mut v: Vec<char> = Vec::new();
    for c in it: source.chars()
        invariant
            v@ == it.seq().take(it.index() as int),
    {
        v.push(c);
    }
    v
}

/// The decimal digit character for `d < 10`.
pub open spec fn digit_char(d: nat) -> char {
    if d == 0 { '0' }
    else if d == 1 { '1' }
    else if d == 2 { '2' }
    else if d == 3 { '3' }
    else if d == 4 { '4' }
    else if d == 5 { '5' }
    else if d == 6 { '6' }
    else if d == 7 { '7' }
    else if d == 8 { '8' }
    else { '9' }
}

/// The decimal representation of a natural number, without leading zeros.
pub open spec fn decimal(n: nat) -> Seq<char>
    decreases n,
{
    if n < 10 {
        seq![digit_char(n)]
    } else {
        decimal(n / 10).push(digit_char(n % 10))
    }
}

fn digit_of(d: usize) -> (c: char)
    requires
        d < 10,
    ensures
        c == digit_char(d as nat),
{
    if d == 0 { '0' }
    else if d == 1 { '1' }
    else if d == 2 { '2' }
    else if d == 3 { '3' }
    else if d == 4 { '4' }
    else if d == 5 { '5' }
    else if d == 6 { '6' }
    else if d == 7 { '7' }
    else if d == 8 { '8' }
    else { '9' }
}

/// Appends the decimal representation of `n` to `s`.
pub fn push_decimal(s: &mut String, n: usize)
    ensures
        final(s)@ == old(s)@ + decimal(n as nat),
    decreases n,
{
    if n < 10 {
        push_char(s, digit_of(n));
        assert(old(s)@.push(digit_char(n as nat)) =~= old(s)@ + decimal(n as nat));
    } else {
        push_decimal(s, n / 10);
        push_char(s, digit_of(n % 10));
        assert(old(s)@ + decimal((n / 10) as nat) + seq![digit_char((n % 10) as nat)] =~= old(s)@ + decimal(n as nat));
    }
}

/// Whether a character has the Unicode `Alphabetic` property, as
/// `char::is_alphabetic` decides it.
pub uninterp spec fn char_is_alphabetic(c: char) -> bool;

/// Whether a character is alphabetic or numeric in Unicode's sense, as
/// `char::is_alphanumeric` decides it.
pub uninterp spec fn char_is_alphanumeric(c: char) -> bool;

/// Whether `c` is an ASCII letter.
pub open spec fn is_ascii_letter(c: char) -> bool {
    ('a' <= c && c <= 'z') || ('A' <= c && c <= 'Z')
}

/// Whether `c` is alphabetic: among ASCII characters, exactly the letters;
/// beyond ASCII, as `char::is_alphabetic` decides.
pub open spec fn alphabetic(c: char) -> bool {
    if (c as u32) < 128 {
        is_ascii_letter(c)
    } else {
        char_is_alphabetic(c)
    }
}

/// Whether `c` is alphanumeric: among ASCII characters, exactly the letters
/// and digits; beyond ASCII, as `char::is_alphanumeric` decides.
pub open spec fn alphanumeric(c: char) -> bool {
    if (c as u32) < 128 {
        is_ascii_letter(c) || is_digit(c)
    } else {
        char_is_alphanumeric(c)
    }
}

/// Calls `char::is_alphabetic`. The contract names its result, which depends
/// on the character alone, and states the part that std's documentation makes
/// plain: among ASCII characters, the alphabetic ones are the letters. The
/// Unicode tables behind the rest are not written out here.
#[verifier::external_body]
pub fn is_alphabetic(c: char) -> (r: bool)
    ensures
        r == char_is_alphabetic(c),
        (c as u32) < 128 ==> (r <==> is_ascii_letter(c)),
{
    c.is_alphabetic()
}

/// Calls `char::is_alphanumeric`. The contract names its result, which
/// depends on the character alone, and states the part that std's
/// documentation makes plain: among ASCII characters, the alphanumeric ones
/// are the letters and the digits. The Unicode tables behind the rest are not
/// written out here.
#[verifier::external_body]
pub fn is_alphanumeric(c: char) -> (r: bool)
    ensures
        r == char_is_alphanumeric(c),
        (c as u32) < 128 ==> (r <==> (is_ascii_letter(c) || is_digit(c))),
{
    c.is_alphanumeric()
}

/// Whether `c` is one of the ASCII digits `0` to `9`.
pub open spec fn is_digit(c: char) -> bool {
    '0' <= c && c <= '9'
}

} // verus!
