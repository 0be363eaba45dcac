//! Small text operations shared by the parsers and the code generator.
use vstd::prelude::*;

verus! {

/// Calls `String::push`. The contract claims what its documentation says:
/// the character is appended at the end of the string.
#[verifier::external_body]
pub(crate) fn push_char(s: &mut String, c: char)
    ensures
        final(s)@ == old(s)@.push(c),
{
    s.push(c);
}

/// An owned copy of a string slice.
pub fn owned(s: &str) -> (r: String)
    ensures
        r@ == s@,
{
    s.to_owned()
}

/// Appends `s` to `out`.
pub fn push_str(out: &mut String, s: &str)
    ensures
        final(out)@ == old(out)@ + s@,
{
    out.append(s);
}

/// The characters of a string slice.
pub fn chars_of(s: &str) -> (v: Vec<char>)
    ensures
        v@ == s@,
{
    let len = s.unicode_len();
    let mut v: Vec<char> = Vec::new();
    let mut i: usize = 0;
    while i < len
        invariant
            i <= len,
            len == s@.len(),
            v@ == s@.subrange(0, i as int),
        decreases len - i,
    {
        v.push(s.get_char(i));
        i = i + 1;
        assert(v@ =~= s@.subrange(0, i as int));
    }
    assert(v@ =~= s@);
    v
}

/// The string made of `chars[start..end]`.
pub fn string_of(chars: &Vec<char>, start: usize, end: usize) -> (s: String)
    requires
        start <= end <= chars@.len(),
    ensures
        s@ == chars@.subrange(start as int, end as int),
{
    let mut s = String::new();
    let mut i = start;
    while i < end
        invariant
            start <= i <= end,
            end <= chars@.len(),
            s@ == chars@.subrange(start as int, i as int),
        decreases end - i,
    {
        push_char(&mut s, chars[i]);
        i = i + 1;
        assert(s@ =~= chars@.subrange(start as int, i as int));
    }
    s
}

/// The ASCII lowercase of a character; other characters are kept.
pub open spec fn lower_char(c: char) -> char {
    if 'A' <= c && c <= 'Z' {
        ((c as u32) + 32) as char
    } else {
        c
    }
}

/// The ASCII lowercase of a text, as `str::to_ascii_lowercase` gives it.
pub open spec fn ascii_lower(s: Seq<char>) -> Seq<char> {
    s.map_values(|c: char| lower_char(c))
}

/// The ASCII lowercase of `chars[start..end]`.
pub fn ascii_lowercase_of(chars: &Vec<char>, start: usize, end: usize) -> (s: String)
    requires
        start <= end <= chars@.len(),
    ensures
        s@ == ascii_lower(chars@.subrange(start as int, end as int)),
{
    let mut s = String::new();
    let mut i = start;
    while i < end
        invariant
            start <= i <= end,
            end <= chars@.len(),
            s@ == ascii_lower(chars@.subrange(start as int, i as int)),
        decreases end - i,
    {
        let c = chars[i];
        let l = if 'A' <= c && c <= 'Z' {
            char_from_u32((c as u32) + 32)
        } else {
            c
        };
        push_char(&mut s, l);
        i = i + 1;
        assert(s@ =~= ascii_lower(chars@.subrange(start as int, i as int)));
    }
    s
}

/// The ASCII lowercase of a string slice.
pub fn to_ascii_lowercase(s: &str) -> (r: String)
    ensures
        r@ == ascii_lower(s@),
{
    let chars = chars_of(s);
    let r = ascii_lowercase_of(&chars, 0, chars.len());
    assert(chars@.subrange(0, chars@.len() as int) =~= chars@);
    r
}

/// The character of an uppercase letter's lowercase code point.
fn char_from_u32(v: u32) -> (c: char)
    requires
        97 <= v <= 122,
    ensures
        c == v as char,
{
    let b = v as u8;
    b as char
}

/// Whether two strings hold the same characters.
pub fn string_eq(a: &String, b: &String) -> (r: bool)
    ensures
        r == (a@ == b@),
{
    *a == *b
}

/// Whether `needle` is one of `codes`.
pub fn contains_string(codes: &Vec<String>, needle: &String) -> (r: bool)
    ensures
        r == codes@.map_values(|s: String| s@).contains(needle@),
{
    let ghost views = codes@.map_values(|s: String| s@);
    let mut i: usize = 0;
    while i < codes.len()
        invariant
            i <= codes@.len(),
            views == codes@.map_values(|s: String| s@),
            forall|j: int| 0 <= j < i ==> views[j] != needle@,
        decreases codes@.len() - i,
    {
        if string_eq(&codes[i], needle) {
            assert(views[i as int] == needle@);
            return true;
        }
        i = i + 1;
    }
    false
}

} // verus!
