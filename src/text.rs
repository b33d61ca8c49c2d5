use vstd::prelude::*;
use vstd::string::StringExecFns;
use vstd::utf8::encode_utf8;

verus! {

/// Whether `c` has the Unicode `White_Space` property: the characters that
/// `char::is_whitespace` accepts and that separate words.
pub open spec fn is_whitespace(c: char) -> bool {
    let u = c as u32;
    (0x09 <= u <= 0x0d) || u == 0x20 || u == 0x85 || u == 0xa0 || u == 0x1680 || (0x2000 <= u
        <= 0x200a) || u == 0x2028 || u == 0x2029 || u == 0x202f || u == 0x205f || u == 0x3000
}

/// Decides `is_whitespace(c)`.
pub fn is_whitespace_char(c: char) -> (r: bool)
    ensures
        r == is_whitespace(c),
{
    let u = c as u32;
    (0x09 <= u && u <= 0x0d) || u == 0x20 || u == 0x85 || u == 0xa0 || u == 0x1680 || (0x2000
        <= u && u <= 0x200a) || u == 0x2028 || u == 0x2029 || u == 0x202f || u == 0x205f || u
        == 0x3000
}


/// The number of bytes in the UTF-8 encoding of `s`.
pub fn calculate_length(s: &String) -> (r: usize)
    ensures
        r == encode_utf8(s@).len() as usize,
{
    s.as_str().len()
}

/// `c` with 'a' to 'z' mapped to 'A' to 'Z'; any other character as it is.
pub open spec fn ascii_upper(c: char) -> char {
    if 'a' <= c && c <= 'z' {
        ((c as u32) - 32) as char
    } else {
        c
    }
}

/// Relies on `str::make_ascii_uppercase`: each of 'a' to 'z' becomes its
/// capital letter, every other character stays as it is.
#[verifier::external_body]
fn upcase_ascii_in_place(s: &mut String)
    ensures
        final(s)@ == old(s)@.map_values(|c: char| ascii_upper(c)),
{
    s.make_ascii_uppercase()
}

/// Turns the ASCII lowercase letters of `s` into capitals, in place.
pub fn make_uppercase(s: &mut String)
    ensures
        final(s)@.len() == old(s)@.len(),
        forall|i: int| 0 <= i < old(s)@.len() ==> #[trigger] final(s)@[i] == ascii_upper(old(s)@[i]),
{
    upcase_ascii_in_place(s);
}

/// `s` followed by an exclamation mark.
pub fn append_exclamation(s: String) -> (r: String)
    ensures
        r@ == s@.push('!'),
{
    let mut s = s;
    s.append("!");
    proof {
        reveal_strlit("!");
    }
    s
}

/// The first character of `s`, if it has one.
pub fn get_first_char(s: &str) -> (r: Option<char>)
    ensures
        r == (if s@.len() == 0 {
            None
        } else {
            Some(s@[0])
        }),
{
    if s.is_empty() {
        None
    } else {
        Some(s.get_char(0))
    }
}

/// The first index at or after `i` that holds a space, or the length of `s`.
pub open spec fn space_at_or_after(s: Seq<char>, i: nat) -> nat
    decreases s.len() - i,
{
    if i >= s.len() {
        s.len()
    } else if s[i as int] == ' ' {
        i
    } else {
        space_at_or_after(s, i + 1)
    }
}

fn find_space(s: &str, from: usize) -> (r: usize)
    requires
        from <= s@.len(),
    ensures
        r == space_at_or_after(s@, from as nat),
        from <= r <= s@.len(),
{
    let n = s.unicode_len();
    let mut i: usize = from;
    while i < n && s.get_char(i) != ' '
        invariant
            n == s@.len(),
            from <= i <= n,
            space_at_or_after(s@, from as nat) == space_at_or_after(s@, i as nat),
        decreases n - i,
    {
        i = i + 1;
    }
    i
}

/// The text of `s` before its first space; all of `s` when it has none.
pub fn first_word(s: &str) -> (r: &str)
    ensures
        r@ == s@.subrange(0, space_at_or_after(s@, 0) as int),
{
    let end = find_space(s, 0);
    s.substring_char(0, end)
}

/// The second of the fields that single spaces separate in `s`, if `s` has a
/// space.
pub fn second_word(s: &str) -> (r: Option<&str>)
    ensures
        ({
            let first_end = space_at_or_after(s@, 0);
            match r {
                None => first_end == s@.len(),
                Some(w) => first_end < s@.len() && w@ == s@.subrange(
                    first_end + 1 as int,
                    space_at_or_after(s@, first_end + 1) as int,
                ),
            }
        }),
{
    let first_end = find_space(s, 0);
    if first_end == s.unicode_len() {
        None
    } else {
        let second_end = find_space(s, first_end + 1);
        Some(s.substring_char(first_end + 1, second_end))
    }
}

} // verus!
