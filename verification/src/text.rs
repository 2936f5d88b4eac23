//! Character-level helpers shared by the identification engine and the
//! action runner: the white-space predicate, trimming, splitting a command
//! line into words, and escaping control characters for display.

use vstd::prelude::*;

verus! {

/// The Unicode white-space characters, exactly as `char::is_whitespace`
/// recognises them.
pub open spec fn is_wspace(c: char) -> bool {
    ||| c == ' '
    ||| c == '\t'
    ||| c == '\n'
    ||| c == '\u{b}'
    ||| c == '\u{c}'
    ||| c == '\r'
    ||| c == '\u{85}'
    ||| c == '\u{a0}'
    ||| c == '\u{1680}'
    ||| c == '\u{2000}'
    ||| c == '\u{2001}'
    ||| c == '\u{2002}'
    ||| c == '\u{2003}'
    ||| c == '\u{2004}'
    ||| c == '\u{2005}'
    ||| c == '\u{2006}'
    ||| c == '\u{2007}'
    ||| c == '\u{2008}'
    ||| c == '\u{2009}'
    ||| c == '\u{200a}'
    ||| c == '\u{2028}'
    ||| c == '\u{2029}'
    ||| c == '\u{202f}'
    ||| c == '\u{205f}'
    ||| c == '\u{3000}'
}

pub fn is_wspace_char(c: char) -> (r: bool)
    ensures
        r == is_wspace(c),
{
    c == ' ' || c == '\t' || c == '\n' || c == '\u{b}' || c == '\u{c}' || c == '\r'
        || c == '\u{85}' || c == '\u{a0}' || c == '\u{1680}' || c == '\u{2000}'
        || c == '\u{2001}' || c == '\u{2002}' || c == '\u{2003}' || c == '\u{2004}'
        || c == '\u{2005}' || c == '\u{2006}' || c == '\u{2007}' || c == '\u{2008}'
        || c == '\u{2009}' || c == '\u{200a}' || c == '\u{2028}' || c == '\u{2029}'
        || c == '\u{202f}' || c == '\u{205f}' || c == '\u{3000}'
}

/// The sequence with its leading white space removed.
pub open spec fn trim_start_of(s: Seq<char>) -> Seq<char>
    decreases s.len(),
{
    if s.len() > 0 && is_wspace(s[0]) {
        trim_start_of(s.drop_first())
    } else {
        s
    }
}

/// The sequence with its trailing white space removed.
pub open spec fn trim_end_of(s: Seq<char>) -> Seq<char>
    decreases s.len(),
{
    if s.len() > 0 && is_wspace(s.last()) {
        trim_end_of(s.drop_last())
    } else {
        s
    }
}

/// The sequence with both leading and trailing white space removed,
/// as `str::trim` computes it.
pub open spec fn trim_of(s: Seq<char>) -> Seq<char> {
    trim_end_of(trim_start_of(s))
}

proof fn lemma_trim_start_skip(s: Seq<char>, k: int)
    requires
        0 <= k <= s.len(),
        forall|j: int| 0 <= j < k ==> is_wspace(s[j]),
    ensures
        trim_start_of(s) == trim_start_of(s.skip(k)),
    decreases k,
{
    if k > 0 {
        assert(s.drop_first() =~= s.skip(1));
        lemma_trim_start_skip(s.skip(1), k - 1);
        assert(s.skip(1).skip(k - 1) =~= s.skip(k));
    } else {
        assert(s.skip(0) =~= s);
    }
}

proof fn lemma_trim_end_take(s: Seq<char>, k: int)
    requires
        0 <= k <= s.len(),
        forall|j: int| k <= j < s.len() ==> is_wspace(s[j]),
    ensures
        trim_end_of(s) == trim_end_of(s.take(k)),
    decreases s.len() - k,
{
    if k < s.len() {
        assert(is_wspace(s.last()));
        assert(s.drop_last() =~= s.take(s.len() - 1));
        lemma_trim_end_take(s.take(s.len() - 1), k);
        assert(s.take(s.len() - 1).take(k) =~= s.take(k));
    } else {
        assert(s.take(s.len() as int) =~= s);
    }
}

/// `str::trim`, verified: removes leading and trailing white space.
pub fn trim_str(s: &str) -> (r: String)
    ensures
        r@ == trim_of(s@),
{
    let n: usize = s.unicode_len();
    let mut lo: usize = 0;
    while lo < n && is_wspace_char(s.get_char(lo))
        invariant
            lo <= n,
            n == s@.len(),
            forall|j: int| 0 <= j < lo ==> is_wspace(s@[j]),
        decreases n - lo,
    {
        lo = lo + 1;
    }
    let mut hi: usize = n;
    while hi > lo && is_wspace_char(s.get_char(hi - 1))
        invariant
            lo <= hi <= n,
            n == s@.len(),
            forall|j: int| hi <= j < n ==> is_wspace(s@[j]),
        decreases hi,
    {
        hi = hi - 1;
    }
    if lo == hi {
        proof {
            lemma_trim_start_skip(s@, n as int);
            assert(s@.skip(n as int) =~= Seq::<char>::empty());
        }
        String::new()
    } else {
        let part = s.substring_char(lo, hi);
        proof {
            let sv = s@;
            let t = sv.skip(lo as int);
            lemma_trim_start_skip(sv, lo as int);
            assert(t[0] == sv[lo as int]);
            assert(!is_wspace(t[0]));
            assert(trim_start_of(t) == t);
            lemma_trim_end_take(t, hi - lo);
            let u = t.take(hi - lo);
            assert(u =~= sv.subrange(lo as int, hi as int));
            assert(u.last() == sv[hi - 1]);
            assert(!is_wspace(u.last()));
            assert(trim_end_of(u) == u);
        }
        String::from_str(part)
    }
}

/// Length of the leading run of non-white-space characters.
pub open spec fn token_run(s: Seq<char>) -> nat
    decreases s.len(),
{
    if s.len() == 0 || is_wspace(s[0]) {
        0
    } else {
        1 + token_run(s.drop_first())
    }
}

proof fn lemma_token_run_bounds(s: Seq<char>)
    ensures
        token_run(s) <= s.len(),
    decreases s.len(),
{
    if s.len() > 0 && !is_wspace(s[0]) {
        lemma_token_run_bounds(s.drop_first());
    }
}

/// `token_run` is the position of the first white-space character, when the
/// sequence starts with `k` non-white-space characters followed by white
/// space or the end.
proof fn lemma_token_run_is(s: Seq<char>, k: int)
    requires
        0 <= k <= s.len(),
        forall|j: int| 0 <= j < k ==> !is_wspace(s[j]),
        k == s.len() || is_wspace(s[k]),
    ensures
        token_run(s) == k,
    decreases k,
{
    if k == 0 {
    } else {
        assert(!is_wspace(s[0]));
        lemma_token_run_is(s.drop_first(), k - 1);
    }
}

/// The words of a command line, in order: the maximal runs of
/// non-white-space characters, as `str::split_whitespace` yields them.
pub open spec fn tokens_of(s: Seq<char>) -> Seq<Seq<char>>
    decreases s.len(),
    via tokens_of_decreases
{
    if s.len() == 0 {
        Seq::empty()
    } else if is_wspace(s[0]) {
        tokens_of(s.drop_first())
    } else {
        seq![s.take(token_run(s) as int)] + tokens_of(s.skip(token_run(s) as int))
    }
}

#[via_fn]
proof fn tokens_of_decreases(s: Seq<char>) {
    if s.len() > 0 && !is_wspace(s[0]) {
        lemma_token_run_bounds(s);
    }
}

/// `str::split_whitespace`, verified: splits a command line into its words.
pub fn split_command_line(line: &str) -> (r: Vec<String>)
    ensures
        r.deep_view() == tokens_of(line@),
{
    let n: usize = line.unicode_len();
    let mut r: Vec<String> = Vec::new();
    let mut i: usize = 0;
    proof {
        assert(line@.skip(0) =~= line@);
    }
    while i < n
        invariant
            i <= n,
            n == line@.len(),
            r.deep_view() + tokens_of(line@.skip(i as int)) =~= tokens_of(line@),
        decreases n - i,
    {
        let ghost sv = line@;
        if is_wspace_char(line.get_char(i)) {
            proof {
                assert(sv.skip(i as int).drop_first() =~= sv.skip(i + 1));
            }
            i = i + 1;
        } else {
            let mut j: usize = i + 1;
            while j < n && !is_wspace_char(line.get_char(j))
                invariant
                    i < j <= n,
                    n == line@.len(),
                    forall|m: int| i <= m < j ==> !is_wspace(line@[m]),
                decreases n - j,
            {
                j = j + 1;
            }
            let word = String::from_str(line.substring_char(i, j));
            proof {
                let t = sv.skip(i as int);
                assert(forall|m: int| 0 <= m < j - i ==> t[m] == sv[m + i] && !is_wspace(t[m]));
                if j < n {
                    assert(t[j - i] == sv[j as int]);
                }
                lemma_token_run_is(t, j - i);
                assert(t.take(j - i) =~= sv.subrange(i as int, j as int));
                assert(t.skip(j - i) =~= sv.skip(j as int));
                assert(r.deep_view().push(word@) =~= r.deep_view() + seq![word@]);
                assert((r.deep_view() + seq![word@]) + tokens_of(sv.skip(j as int)) =~= r.deep_view()
                    + (seq![word@] + tokens_of(sv.skip(j as int))));
            }
            r.push(word);
            i = j;
        }
    }
    proof {
        assert(line@.skip(n as int) =~= Seq::<char>::empty());
        assert(r.deep_view() + tokens_of(line@.skip(n as int)) =~= r.deep_view());
    }
    r
}

/// One character rendered for display: backslash, quotes and the common
/// control characters become two-character escape sequences.
pub open spec fn escape_char(c: char) -> Seq<char> {
    if c == '\\' {
        seq!['\\', '\\']
    } else if c == '"' {
        seq!['\\', '"']
    } else if c == '\'' {
        seq!['\\', '\'']
    } else if c == '\n' {
        seq!['\\', 'n']
    } else if c == '\r' {
        seq!['\\', 'r']
    } else if c == '\t' {
        seq!['\\', 't']
    } else {
        seq![c]
    }
}

/// A whole string rendered for display, character by character.
pub open spec fn escape_of(s: Seq<char>) -> Seq<char>
    decreases s.len(),
{
    if s.len() == 0 {
        Seq::empty()
    } else {
        escape_of(s.drop_last()) + escape_char(s.last())
    }
}

pub fn escape_str(input: &str) -> (r: String)
    ensures
        r@ == escape_of(input@),
{
    let n: usize = input.unicode_len();
    let mut out = String::new();
    let mut i: usize = 0;
    while i < n
        invariant
            i <= n,
            n == input@.len(),
            out@ =~= escape_of(input@.take(i as int)),
        decreases n - i,
    {
        let ghost sv = input@;
        let c = input.get_char(i);
        match c {
            '\\' => {
                out.append("\\\\");
                proof {
                    reveal_strlit("\\\\");
                }
            },
            '"' => {
                out.append("\\\"");
                proof {
                    reveal_strlit("\\\"");
                }
            },
            '\'' => {
                out.append("\\'");
                proof {
                    reveal_strlit("\\'");
                }
            },
            '\n' => {
                out.append("\\n");
                proof {
                    reveal_strlit("\\n");
                }
            },
            '\r' => {
                out.append("\\r");
                proof {
                    reveal_strlit("\\r");
                }
            },
            '\t' => {
                out.append("\\t");
                proof {
                    reveal_strlit("\\t");
                }
            },
            _ => {
                let piece = input.substring_char(i, i + 1);
                out.append(piece);
                proof {
                    assert(piece@ =~= escape_char(sv[i as int]));
                }
            },
        }
        proof {
            assert(sv.take(i + 1).drop_last() =~= sv.take(i as int));
            assert(sv.take(i + 1).last() == sv[i as int]);
        }
        i = i + 1;
    }
    proof {
        assert(input@.take(n as int) =~= input@);
    }
    out
}

} // verus!
