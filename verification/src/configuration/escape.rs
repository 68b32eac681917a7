//! Escaper: expands backslash escapes in the raw payload of quoted and
//! dollar string tokens.

use super::error::ConfigurationError;
use super::Position;
use crate::text::chars_to_string;
use vstd::prelude::*;

verus! {

/// The expansion of one escaped character, or `None` when the escape is not
/// recognized.
pub open spec fn unescape_char(c: char) -> Option<char> {
    if c == 'n' {
        Some('\n')
    } else if c == 'r' {
        Some('\r')
    } else if c == 't' {
        Some('\t')
    } else if c == '\\' {
        Some('\\')
    } else if c == '0' {
        Some('\0')
    } else if c == '\'' {
        Some('\'')
    } else if c == '"' {
        Some('"')
    } else {
        None
    }
}

/// Expansion of the backslash escapes of `s`, resumed in the middle: when
/// `esc` holds, a backslash was just read.  The failure case carries the
/// character that follows a backslash without being a recognized escape,
/// together with the output built up to that point.  A backslash that ends
/// the text escapes nothing and is dropped.
pub open spec fn unescape_from(esc: bool, s: Seq<char>) -> Result<Seq<char>, (char, Seq<char>)>
    decreases s.len(),
{
    if s.len() == 0 {
        Ok(Seq::empty())
    } else if esc {
        match unescape_char(s[0]) {
            Some(c) => match unescape_from(false, s.drop_first()) {
                Ok(t) => Ok(seq![c] + t),
                Err((b, partial)) => Err((b, seq![c] + partial)),
            },
            None => Err((s[0], Seq::empty())),
        }
    } else if s[0] == '\\' {
        unescape_from(true, s.drop_first())
    } else {
        match unescape_from(false, s.drop_first()) {
            Ok(t) => Ok(seq![s[0]] + t),
            Err((b, partial)) => Err((b, seq![s[0]] + partial)),
        }
    }
}

/// Full expansion of the backslash escapes of `s`.
pub open spec fn unescape(s: Seq<char>) -> Result<Seq<char>, (char, Seq<char>)> {
    unescape_from(false, s)
}

/// A text without backslashes escapes to itself.
pub proof fn lemma_unescape_identity(s: Seq<char>)
    requires
        forall|i: int| 0 <= i < s.len() ==> s[i] != '\\',
    ensures
        unescape(s) == Ok::<Seq<char>, (char, Seq<char>)>(s),
    decreases s.len(),
{
    if s.len() == 0 {
        assert(s =~= Seq::<char>::empty());
    } else {
        lemma_unescape_identity(s.drop_first());
        assert(seq![s[0]] + s.drop_first() =~= s);
    }
}

/// Escape the string following the cage specification: `\n \r \t \\ \0 \' \"`
/// expand to their character equivalents; any other character after a
/// backslash is a fatal [`ConfigurationError::UnescapeFail`] carrying the
/// position `p`, the offending character and the output built so far.
pub fn escape(p: Position, s: String) -> (r: Result<String, ConfigurationError>)
    ensures
        match unescape(s@) {
            Ok(t) => r matches Ok(out) && out@ == t,
            Err((c, partial)) => r matches Err(ConfigurationError::UnescapeFail(p2, c2, out))
                && p2 == p && c2 == c && out@ == partial,
        },
{
    let text = s.as_str();
    let len: usize = text.unicode_len();

    // Fast path: a string without a backslash is handed back unchanged.
    let mut has_backslash = false;
    let mut j: usize = 0;
    while j < len
        invariant
            len == s@.len(),
            text@ == s@,
            j <= len,
            has_backslash <==> exists|k: int| 0 <= k < j && s@[k] == '\\',
        decreases len - j,
    {
        if text.get_char(j) == '\\' {
            has_backslash = true;
            proof {
                assert(s@[j as int] == '\\');
            }
        }
        j = j + 1;
    }
    if !has_backslash {
        proof {
            lemma_unescape_identity(s@);
        }
        return Ok(s);
    }

    let mut out: Vec<char> = Vec::new();
    let mut escaping = false;
    let mut i: usize = 0;
    proof {
        assert(s@.skip(0) =~= s@);
        assert(Seq::<char>::empty() + s@ =~= s@);
    }
    while i < len
        invariant
            len == s@.len(),
            text@ == s@,
            i <= len,
            match unescape(s@) {
                Ok(t) => unescape_from(escaping, s@.skip(i as int)) matches Ok(rest) && t == out@
                    + rest,
                Err((c, partial)) => unescape_from(escaping, s@.skip(i as int)) matches Err(pair)
                    && pair.0 == c && partial == out@ + pair.1,
            },
        decreases len - i,
    {
        let c = text.get_char(i);
        proof {
            assert(s@.skip(i as int)[0] == s@[i as int]);
            assert(s@.skip(i as int).drop_first() =~= s@.skip(i + 1));
        }
        if escaping {
            let expanded: Option<char> = if c == 'n' {
                Some('\n')
            } else if c == 'r' {
                Some('\r')
            } else if c == 't' {
                Some('\t')
            } else if c == '\\' {
                Some('\\')
            } else if c == '0' {
                Some('\0')
            } else if c == '\'' {
                Some('\'')
            } else if c == '"' {
                Some('"')
            } else {
                None
            };
            match expanded {
                Some(e) => {
                    proof {
                        assert(unescape_char(s@[i as int]) == Some(e));
                        if let Ok(t) = unescape(s@) {
                            assert((out@ + seq![e]) + (match unescape_from(
                                false,
                                s@.skip(i + 1),
                            ) {
                                Ok(rest2) => rest2,
                                Err(_) => Seq::empty(),
                            }) =~= out@ + (seq![e] + (match unescape_from(false, s@.skip(i + 1)) {
                                Ok(rest2) => rest2,
                                Err(_) => Seq::empty(),
                            })));
                        } else {
                            if let Err(pair2) = unescape_from(false, s@.skip(i + 1)) {
                                assert((out@ + seq![e]) + pair2.1 =~= out@ + (seq![e] + pair2.1));
                            }
                        }
                    }
                    out.push(e);
                    escaping = false;
                },
                None => {
                    proof {
                        assert(unescape_char(s@[i as int]) is None);
                        assert(out@ + Seq::<char>::empty() =~= out@);
                    }
                    return Err(ConfigurationError::UnescapeFail(p, c, chars_to_string(&out)));
                },
            }
        } else if c == '\\' {
            escaping = true;
        } else {
            proof {
                if let Ok(t) = unescape(s@) {
                    if let Ok(rest2) = unescape_from(false, s@.skip(i + 1)) {
                        assert((out@ + seq![s@[i as int]]) + rest2 =~= out@ + (seq![s@[i as int]]
                            + rest2));
                    }
                } else {
                    if let Err(pair2) = unescape_from(false, s@.skip(i + 1)) {
                        assert((out@ + seq![s@[i as int]]) + pair2.1 =~= out@ + (seq![s@[i as int]]
                            + pair2.1));
                    }
                }
            }
            out.push(c);
        }
        i = i + 1;
    }
    proof {
        assert(s@.skip(len as int) =~= Seq::<char>::empty());
        assert(out@ + Seq::<char>::empty() =~= out@);
    }
    Ok(chars_to_string(&out))
}

} // verus!
