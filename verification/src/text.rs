//! Character and string helpers: a comparison of a character buffer with a
//! text, and a small trusted bridge to std's string and character operations
//! that vstd gives no specification for.

use vstd::prelude::*;

verus! {

/// Whether the buffer `v` holds exactly the characters of `s`.
pub(crate) fn chars_eq_str(v: &Vec<char>, s: &str) -> (r: bool)
    ensures
        r == (v@ == s@),
{
    let len: usize = s.unicode_len();
    if v.len() != len {
        proof {
            assert(v@ != s@);
        }
        return false;
    }
    let mut i: usize = 0;
    while i < len
        invariant
            len == s@.len(),
            v@.len() == len,
            i <= len,
            forall|k: int| 0 <= k < i ==> v@[k] == s@[k],
        decreases len - i,
    {
        if v[i] != s.get_char(i) {
            proof {
                assert(v@[i as int] != s@[i as int]);
            }
            return false;
        }
        i = i + 1;
    }
    proof {
        assert(v@ =~= s@);
    }
    true
}

/// Whether std classifies `c` as alphanumeric; the result depends on the
/// character alone.
pub uninterp spec fn spec_alphanumeric(c: char) -> bool;

/// Relies on char::is_alphanumeric: a pure classification of one character.
/// An alphanumeric character is a letter or a digit, so it is none of the
/// punctuation and whitespace characters that the lexer treats as special,
/// and on ASCII the classification is exactly the letters and the digits.
#[verifier::external_body]
pub(crate) fn char_is_alphanumeric(c: char) -> (r: bool)
    ensures
        r == spec_alphanumeric(c),
        r ==> c != '$' && c != ' ' && c != '?' && c != '\t' && c != '\n' && c != '[' && c != ']'
            && c != '(' && c != ')' && c != '{' && c != '}' && c != ':' && c != ',' && c != '|'
            && c != '>' && c != '#' && c != '"' && c != '\\',
        c < '\u{80}' ==> r == (('a' <= c && c <= 'z') || ('A' <= c && c <= 'Z') || ('0' <= c && c
            <= '9')),
{
    c.is_alphanumeric()
}

/// Whether std classifies `c` as whitespace; the result depends on the
/// character alone.
pub uninterp spec fn spec_whitespace(c: char) -> bool;

/// Relies on char::is_whitespace: a pure classification of one character,
/// by the Unicode white space property.  On ASCII that is exactly the
/// space, the tab, the line feed, the vertical tab, the form feed and the
/// carriage return.
#[verifier::external_body]
pub(crate) fn char_is_whitespace(c: char) -> (r: bool)
    ensures
        r == spec_whitespace(c),
        c == '\n' ==> r,
        c < '\u{80}' ==> r == (c == ' ' || c == '\t' || c == '\n' || c == '\u{b}' || c
            == '\u{c}' || c == '\r'),
{
    c.is_whitespace()
}

/// Whether the two texts hold exactly the same characters.
pub(crate) fn str_eq_str(a: &str, b: &str) -> (r: bool)
    ensures
        r == (a@ == b@),
{
    let alen: usize = a.unicode_len();
    let blen: usize = b.unicode_len();
    if alen != blen {
        proof {
            assert(a@ != b@);
        }
        return false;
    }
    let mut i: usize = 0;
    while i < alen
        invariant
            alen == a@.len(),
            blen == b@.len(),
            alen == blen,
            i <= alen,
            forall|k: int| 0 <= k < i ==> a@[k] == b@[k],
        decreases alen - i,
    {
        if a.get_char(i) != b.get_char(i) {
            proof {
                assert(a@[i as int] != b@[i as int]);
            }
            return false;
        }
        i = i + 1;
    }
    proof {
        assert(a@ =~= b@);
    }
    true
}

/// Relies on String::push: appending one character appends exactly that
/// character to the string's characters.
#[verifier::external_body]
fn push_char(s: &mut String, c: char)
    ensures
        final(s)@ == old(s)@.push(c),
{
    s.push(c)
}

/// The string holding exactly the characters of the buffer `v`.
pub(crate) fn chars_to_string(v: &Vec<char>) -> (r: String)
    ensures
        r@ == v@,
{
    let mut s = String::new();
    let mut i: usize = 0;
    proof {
        assert(s@ =~= v@.take(0));
    }
    while i < v.len()
        invariant
            i <= v@.len(),
            s@ == v@.take(i as int),
        decreases v@.len() - i,
    {
        proof {
            assert(v@.take(i as int).push(v@[i as int]) =~= v@.take(i + 1));
        }
        push_char(&mut s, v[i]);
        i = i + 1;
    }
    proof {
        assert(v@.take(v@.len() as int) =~= v@);
    }
    s
}

} // verus!
