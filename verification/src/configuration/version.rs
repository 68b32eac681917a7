//! Version header detection: reads the grammar revision tag from the head of
//! the configuration file and hands back the rest of the text.

use super::error::ConfigurationError;
use super::lexer::lemma_line_len_prefix;
use super::lexer::line_len;
use crate::text::char_is_whitespace;
use crate::text::spec_whitespace;
use crate::text::str_eq_str;
use vstd::prelude::*;

verus! {

/// A known revision of the configuration grammar.
#[derive(PartialEq, Eq, Structural, Debug)]
pub enum Version {
    V0,
}

/// The first significant character of `s` at or after `i`, with the line it
/// stands on: line breaks advance the line, a hash starts a comment that
/// runs to the end of its line, and whitespace is skipped.
pub open spec fn find_start(s: Seq<char>, i: int, line: nat, comment: bool) -> Option<(int, nat)>
    decreases s.len() - i when 0 <= i <= s.len()
{
    if i >= s.len() {
        None
    } else if s[i] == '\n' {
        find_start(s, i + 1, line + 1, false)
    } else if s[i] == '#' {
        find_start(s, i + 1, line, true)
    } else if comment || spec_whitespace(s[i]) {
        find_start(s, i + 1, line, comment)
    } else {
        Some((i, line))
    }
}

/// Length of the run before the first hash of `s`.
pub open spec fn hash_len(s: Seq<char>) -> nat
    decreases s.len(),
{
    if s.len() == 0 {
        0
    } else if s[0] == '#' {
        0
    } else {
        1 + hash_len(s.drop_first())
    }
}

pub proof fn lemma_hash_len_prefix(s: Seq<char>, k: int)
    requires
        0 <= k <= s.len(),
        forall|i: int| 0 <= i < k ==> s[i] != '#',
        k < s.len() ==> s[k] == '#',
    ensures
        hash_len(s) == k,
    decreases k,
{
    if k > 0 {
        assert(forall|i: int| 0 <= i < k - 1 ==> s.drop_first()[i] == s[i + 1]);
        lemma_hash_len_prefix(s.drop_first(), k - 1);
    }
}

/// Number of whitespace characters at the head of `s`.
pub open spec fn ws_prefix(s: Seq<char>) -> nat
    decreases s.len(),
{
    if s.len() == 0 {
        0
    } else if spec_whitespace(s[0]) {
        1 + ws_prefix(s.drop_first())
    } else {
        0
    }
}

pub proof fn lemma_ws_prefix(s: Seq<char>, k: int)
    requires
        0 <= k <= s.len(),
        forall|i: int| 0 <= i < k ==> spec_whitespace(s[i]),
        k < s.len() ==> !spec_whitespace(s[k]),
    ensures
        ws_prefix(s) == k,
    decreases k,
{
    if k > 0 {
        assert(forall|i: int| 0 <= i < k - 1 ==> s.drop_first()[i] == s[i + 1]);
        lemma_ws_prefix(s.drop_first(), k - 1);
    }
}

/// Number of whitespace characters at the tail of `s`.
pub open spec fn ws_suffix(s: Seq<char>) -> nat
    decreases s.len(),
{
    if s.len() == 0 {
        0
    } else if spec_whitespace(s.last()) {
        1 + ws_suffix(s.drop_last())
    } else {
        0
    }
}

pub proof fn lemma_ws_suffix(s: Seq<char>, m: int)
    requires
        0 <= m <= s.len(),
        forall|i: int| s.len() - m <= i < s.len() ==> spec_whitespace(s[i]),
        m < s.len() ==> !spec_whitespace(s[s.len() - m - 1]),
    ensures
        ws_suffix(s) == m,
    decreases m,
{
    if m > 0 {
        assert(forall|i: int| s.drop_last().len() - (m - 1) <= i < s.drop_last().len()
            ==> s.drop_last()[i] == s[i]);
        lemma_ws_suffix(s.drop_last(), m - 1);
    }
}

/// `s` with its leading and trailing whitespace removed.
pub open spec fn trim_spec(s: Seq<char>) -> Seq<char> {
    let tail = s.skip(ws_prefix(s) as int);
    tail.take(tail.len() - ws_suffix(tail))
}

/// The header line of a configuration file: its text (a trailing comment cut
/// off, whitespace trimmed), the rest of the file after the header's line
/// break, and the number of the line that follows the header.
pub open spec fn get_line_spec(s: Seq<char>) -> Option<(Seq<char>, Seq<char>, nat)> {
    match find_start(s, 0, 1, false) {
        None => None,
        Some((start, line)) => {
            let tail = s.skip(start);
            if line_len(tail) == tail.len() {
                None
            } else {
                let full = tail.take(line_len(tail) as int);
                let cut = full.take(hash_len(full) as int);
                Some((trim_spec(cut), tail.skip(line_len(tail) as int + 1), line + 1))
            }
        },
    }
}

impl Version {
    /// Read the version header from the head of the file: the header names
    /// the grammar revision; the rest of the file and the number of the line
    /// after the header come with it.
    pub fn get(file_content: &str) -> (r: Result<(Version, &str, usize), ConfigurationError>)
        requires
            file_content@.len() < usize::MAX,
        ensures
            match get_line_spec(file_content@) {
                None => r matches Err(e) && e is VersionNotFound,
                Some((h, rest, ln)) => {
                    if h == "CAGE-BUILD-0"@ {
                        r matches Ok((v, f, l)) && v is V0 && f@ == rest && l == ln
                    } else {
                        r matches Err(ConfigurationError::VersionUnknown(x)) && x@ == h
                    }
                },
            },
    {
        let found = match Self::get_line(file_content) {
            Some(t) => t,
            None => {
                return Err(ConfigurationError::VersionNotFound);
            },
        };
        let (h, f, line) = found;
        if str_eq_str(h, "CAGE-BUILD-0") {
            Ok((Version::V0, f, line))
        } else {
            Err(ConfigurationError::VersionUnknown(String::from_str(h)))
        }
    }

    /// Find the header: the first line holding anything but comments and
    /// whitespace.  Returns its text (trailing comment cut off, whitespace
    /// trimmed), the rest of the file after that line, and the number of the
    /// next line.  `None` when no such line ends with a line break.
    #[verifier::loop_isolation(false)]
    pub fn get_line(file_content: &str) -> (r: Option<(&str, &str, usize)>)
        requires
            file_content@.len() < usize::MAX,
        ensures
            match get_line_spec(file_content@) {
                None => r is None,
                Some((h, rest, ln)) => r matches Some((hh, rr, l)) && hh@ == h && rr@ == rest && l
                    == ln,
            },
    {
        let ghost s = file_content@;
        let len: usize = file_content.unicode_len();
        let mut i: usize = 0;
        let mut line: usize = 1;
        let mut comment: bool = false;
        loop
            invariant
                i <= len,
                line <= i + 1,
                find_start(s, 0, 1, false) == find_start(s, i as int, line as nat, comment),
            decreases len - i,
        {
            if i >= len {
                return None;
            }
            let c = file_content.get_char(i);
            proof {
                assert(s[i as int] == c);
                assert(find_start(s, i as int, line as nat, comment) == (if c == '\n' {
                    find_start(s, i + 1, (line + 1) as nat, false)
                } else if c == '#' {
                    find_start(s, i + 1, line as nat, true)
                } else if comment || spec_whitespace(c) {
                    find_start(s, i + 1, line as nat, comment)
                } else {
                    Some((i as int, line as nat))
                }));
            }
            if c == '\n' {
                comment = false;
                line = line + 1;
                i = i + 1;
                proof {
                    assert(find_start(s, 0, 1, false) == find_start(
                        s,
                        i as int,
                        line as nat,
                        comment,
                    ));
                }
            } else if c == '#' {
                comment = true;
                i = i + 1;
                proof {
                    assert(find_start(s, 0, 1, false) == find_start(
                        s,
                        i as int,
                        line as nat,
                        comment,
                    ));
                }
            } else if comment {
                i = i + 1;
                proof {
                    assert(find_start(s, 0, 1, false) == find_start(
                        s,
                        i as int,
                        line as nat,
                        comment,
                    ));
                }
            } else if char_is_whitespace(c) {
                i = i + 1;
                proof {
                    assert(find_start(s, 0, 1, false) == find_start(
                        s,
                        i as int,
                        line as nat,
                        comment,
                    ));
                }
            } else {
                break;
            }
        }
        let start = i;
        let start_line = line;
        proof {
            assert(find_start(s, 0, 1, false) == Some((start as int, start_line as nat)));
        }
        let ghost tail = s.skip(start as int);

        // The header runs to the next line break; without one there is no
        // header.
        let mut j = start;
        while j < len && file_content.get_char(j) != '\n'
            invariant
                start <= j <= len,
                forall|k: int| start <= k < j ==> s[k] != '\n',
            decreases len - j,
        {
            j = j + 1;
        }
        proof {
            assert(forall|k: int| 0 <= k < j - start ==> tail[k] == s[k + start]);
            if j < len {
                assert(tail[j - start] == s[j as int]);
            }
            lemma_line_len_prefix(tail, j - start);
        }
        if j >= len {
            return None;
        }

        // A comment ends the header text early.
        let mut cut = start;
        while cut < j && file_content.get_char(cut) != '#'
            invariant
                start <= cut <= j,
                forall|k: int| start <= k < cut ==> s[k] != '#',
            decreases j - cut,
        {
            cut = cut + 1;
        }
        let ghost full = tail.take(line_len(tail) as int);
        proof {
            assert(forall|k: int| 0 <= k < cut - start ==> full[k] == s[k + start]);
            if cut < j {
                assert(full[cut - start] == s[cut as int]);
            }
            lemma_hash_len_prefix(full, cut - start);
        }
        let ghost cutseq = full.take(hash_len(full) as int);

        // Trim the whitespace around the header text.
        let mut lo = start;
        while lo < cut && char_is_whitespace(file_content.get_char(lo))
            invariant
                start <= lo <= cut,
                forall|k: int| start <= k < lo ==> spec_whitespace(s[k]),
            decreases cut - lo,
        {
            lo = lo + 1;
        }
        proof {
            assert(forall|k: int| 0 <= k < lo - start ==> cutseq[k] == s[k + start]);
            if lo < cut {
                assert(cutseq[lo - start] == s[lo as int]);
            }
            lemma_ws_prefix(cutseq, lo - start);
        }
        let ghost trimmed_head = cutseq.skip(ws_prefix(cutseq) as int);
        let mut hi = cut;
        while hi > lo && char_is_whitespace(file_content.get_char(hi - 1))
            invariant
                lo <= hi <= cut,
                forall|k: int| hi <= k < cut ==> spec_whitespace(s[k]),
            decreases hi - lo,
        {
            hi = hi - 1;
        }
        proof {
            assert(forall|k: int| 0 <= k < trimmed_head.len() ==> trimmed_head[k] == s[k + lo]);
            if hi > lo {
                assert(trimmed_head[hi - 1 - lo] == s[hi - 1]);
            }
            lemma_ws_suffix(trimmed_head, cut - hi);
            assert(trimmed_head.take(trimmed_head.len() - ws_suffix(trimmed_head)) =~= s.subrange(
                lo as int,
                hi as int,
            ));
            assert(tail.skip(line_len(tail) as int + 1) =~= s.subrange(j + 1, len as int));
        }
        let h = file_content.substring_char(lo, hi);
        let rest = file_content.substring_char(j + 1, len);
        Some((h, rest, start_line + 1))
    }
}

} // verus!
