use vstd::prelude::*;
use crate::numeral::is_digit;

verus! {

/// A fixed lexical pattern, matched at the cursor with no lookbehind.
///
/// `Lit` matches its text verbatim; `Word` additionally demands a word
/// boundary after the text, so that a keyword does not swallow the head of a
/// longer identifier. The class patterns take the longest possible run.
#[derive(Debug)]
pub enum Pattern {
    /// One or more of space, newline, carriage return, tab.
    Whitespace,
    /// Two slashes, then everything up to the end of the line.
    LineComment,
    /// Slash-star, then everything on the same line up to the last star-slash.
    BlockComment,
    /// An ASCII letter or underscore, then letters, digits or underscores.
    Ident,
    /// One or more decimal digits.
    Number,
    /// The given text itself.
    Lit(String),
    /// The given text, not followed by a letter, digit or underscore.
    Word(String),
}

pub enum PatternV {
    Whitespace,
    LineComment,
    BlockComment,
    Ident,
    Number,
    Lit(Seq<char>),
    Word(Seq<char>),
}

impl View for Pattern {
    type V = PatternV;

    open spec fn view(&self) -> PatternV {
        match self {
            Pattern::Whitespace => PatternV::Whitespace,
            Pattern::LineComment => PatternV::LineComment,
            Pattern::BlockComment => PatternV::BlockComment,
            Pattern::Ident => PatternV::Ident,
            Pattern::Number => PatternV::Number,
            Pattern::Lit(w) => PatternV::Lit(w@),
            Pattern::Word(w) => PatternV::Word(w@),
        }
    }
}

pub open spec fn is_ws(c: char) -> bool {
    c == ' ' || c == '\n' || c == '\r' || c == '\t'
}

pub open spec fn is_alpha(c: char) -> bool {
    ('a' <= c && c <= 'z') || ('A' <= c && c <= 'Z')
}

pub open spec fn is_ident_start(c: char) -> bool {
    is_alpha(c) || c == '_'
}

pub open spec fn is_word_char(c: char) -> bool {
    is_ident_start(c) || is_digit(c)
}

pub open spec fn ws_run(s: Seq<char>, pos: int) -> int
    decreases s.len() - pos,
{
    if 0 <= pos < s.len() && is_ws(s[pos]) {
        1 + ws_run(s, pos + 1)
    } else {
        0
    }
}

pub open spec fn nonl_run(s: Seq<char>, pos: int) -> int
    decreases s.len() - pos,
{
    if 0 <= pos < s.len() && s[pos] != '\n' {
        1 + nonl_run(s, pos + 1)
    } else {
        0
    }
}

pub open spec fn ident_run(s: Seq<char>, pos: int) -> int
    decreases s.len() - pos,
{
    if 0 <= pos < s.len() && is_word_char(s[pos]) {
        1 + ident_run(s, pos + 1)
    } else {
        0
    }
}

pub open spec fn digit_run(s: Seq<char>, pos: int) -> int
    decreases s.len() - pos,
{
    if 0 <= pos < s.len() && is_digit(s[pos]) {
        1 + digit_run(s, pos + 1)
    } else {
        0
    }
}

/// Each class run stays within the input.
pub proof fn lemma_runs_bounded(s: Seq<char>, pos: int)
    requires
        0 <= pos <= s.len(),
    ensures
        0 <= ws_run(s, pos) <= s.len() - pos,
        0 <= nonl_run(s, pos) <= s.len() - pos,
        0 <= ident_run(s, pos) <= s.len() - pos,
        0 <= digit_run(s, pos) <= s.len() - pos,
    decreases s.len() - pos,
{
    if pos < s.len() {
        lemma_runs_bounded(s, pos + 1);
    }
}

/// The length of the longest block comment that opens at `pos` and closes at
/// or before `limit`, searching for the closing star-slash from `limit` down.
pub open spec fn block_close(s: Seq<char>, pos: int, j: int) -> Option<int>
    decreases j - pos,
{
    if j < pos + 4 {
        None
    } else if s[j - 2] == '*' && s[j - 1] == '/' {
        Some(j - pos)
    } else {
        block_close(s, pos, j - 1)
    }
}

pub proof fn lemma_block_close_bounded(s: Seq<char>, pos: int, j: int)
    requires
        pos >= 0,
    ensures
        block_close(s, pos, j) matches Some(l) ==> 4 <= l <= j - pos,
    decreases j - pos,
{
    if j >= pos + 4 && !(s[j - 2] == '*' && s[j - 1] == '/') {
        lemma_block_close_bounded(s, pos, j - 1);
    }
}

/// How far the pattern matches at `pos`: the length of the matched prefix,
/// or nothing when the pattern does not match there.
pub open spec fn pat_len(p: PatternV, s: Seq<char>, pos: int) -> Option<int> {
    match p {
        PatternV::Whitespace => {
            let n = ws_run(s, pos);
            if n > 0 {
                Some(n)
            } else {
                None
            }
        },
        PatternV::LineComment => {
            if pos + 2 <= s.len() && s[pos] == '/' && s[pos + 1] == '/' {
                Some(2 + nonl_run(s, pos + 2))
            } else {
                None
            }
        },
        PatternV::BlockComment => {
            if pos + 2 <= s.len() && s[pos] == '/' && s[pos + 1] == '*' {
                block_close(s, pos, pos + 2 + nonl_run(s, pos + 2))
            } else {
                None
            }
        },
        PatternV::Ident => {
            if pos < s.len() && is_ident_start(s[pos]) {
                Some(1 + ident_run(s, pos + 1))
            } else {
                None
            }
        },
        PatternV::Number => {
            let n = digit_run(s, pos);
            if n > 0 {
                Some(n)
            } else {
                None
            }
        },
        PatternV::Lit(w) => {
            if pos + w.len() <= s.len() && s.subrange(pos, pos + w.len()) == w {
                Some(w.len() as int)
            } else {
                None
            }
        },
        PatternV::Word(w) => {
            if pos + w.len() <= s.len() && s.subrange(pos, pos + w.len()) == w && (pos + w.len()
                == s.len() || !is_word_char(s[pos + w.len()])) {
                Some(w.len() as int)
            } else {
                None
            }
        },
    }
}

/// A successful match consumes at least what `Lit`/`Word` demand and never
/// runs past the end of the input.
pub proof fn lemma_pat_len_bounded(p: PatternV, s: Seq<char>, pos: int)
    requires
        0 <= pos <= s.len(),
    ensures
        pat_len(p, s, pos) matches Some(l) ==> 0 <= l <= s.len() - pos,
{
    lemma_runs_bounded(s, pos);
    if pos + 2 <= s.len() {
        lemma_runs_bounded(s, pos + 2);
        lemma_block_close_bounded(s, pos, pos + 2 + nonl_run(s, pos + 2));
    }
    if pos + 1 <= s.len() {
        lemma_runs_bounded(s, pos + 1);
    }
}

fn is_ws_char(c: char) -> (r: bool)
    ensures
        r == is_ws(c),
{
    c == ' ' || c == '\n' || c == '\r' || c == '\t'
}

fn is_word_char_exec(c: char) -> (r: bool)
    ensures
        r == is_word_char(c),
{
    ('a' <= c && c <= 'z') || ('A' <= c && c <= 'Z') || c == '_' || ('0' <= c && c <= '9')
}

fn ws_scan(s: &str, n: usize, from: usize) -> (r: usize)
    requires
        n == s@.len(),
        from <= n,
    ensures
        r == ws_run(s@, from as int),
        from + r <= n,
    decreases n - from,
{
    if from < n && is_ws_char(s.get_char(from)) {
        1 + ws_scan(s, n, from + 1)
    } else {
        0
    }
}

fn nonl_scan(s: &str, n: usize, from: usize) -> (r: usize)
    requires
        n == s@.len(),
        from <= n,
    ensures
        r == nonl_run(s@, from as int),
        from + r <= n,
    decreases n - from,
{
    if from < n && s.get_char(from) != '\n' {
        1 + nonl_scan(s, n, from + 1)
    } else {
        0
    }
}

fn ident_scan(s: &str, n: usize, from: usize) -> (r: usize)
    requires
        n == s@.len(),
        from <= n,
    ensures
        r == ident_run(s@, from as int),
        from + r <= n,
    decreases n - from,
{
    if from < n && is_word_char_exec(s.get_char(from)) {
        1 + ident_scan(s, n, from + 1)
    } else {
        0
    }
}

fn digit_scan(s: &str, n: usize, from: usize) -> (r: usize)
    requires
        n == s@.len(),
        from <= n,
    ensures
        r == digit_run(s@, from as int),
        from + r <= n,
    decreases n - from,
{
    if from < n && {
        let c = s.get_char(from);
        '0' <= c && c <= '9'
    } {
        1 + digit_scan(s, n, from + 1)
    } else {
        0
    }
}

/// Whether the text `w` stands verbatim at `pos` in `s`.
fn lit_matches(s: &str, n: usize, pos: usize, w: &str) -> (r: bool)
    requires
        n == s@.len(),
        pos <= n,
    ensures
        r == (pos + w@.len() <= s@.len() && s@.subrange(pos as int, pos + w@.len()) == w@),
{
    let wn = w.unicode_len();
    if wn > n - pos {
        return false;
    }
    let mut k: usize = 0;
    while k < wn
        invariant
            0 <= k <= wn,
            wn == w@.len(),
            n == s@.len(),
            pos + wn <= n,
            forall|j: int| 0 <= j < k ==> s@[pos + j] == w@[j],
        decreases wn - k,
    {
        if s.get_char(pos + k) != w.get_char(k) {
            proof {
                assert(s@.subrange(pos as int, pos + w@.len())[k as int] == s@[pos + k]);
            }
            return false;
        }
        k = k + 1;
    }
    proof {
        assert(s@.subrange(pos as int, pos + w@.len()) =~= w@);
    }
    true
}

/// Matches a pattern at `pos`, reporting how many characters it consumed.
pub fn pattern_match(p: &Pattern, s: &str, n: usize, pos: usize) -> (r: Option<usize>)
    requires
        n == s@.len(),
        pos <= n,
    ensures
        (r is Some <==> pat_len(p@, s@, pos as int) is Some),
        r matches Some(l) ==> pat_len(p@, s@, pos as int) == Some(l as int) && pos + l <= n,
{
    proof {
        lemma_pat_len_bounded(p@, s@, pos as int);
    }
    match p {
        Pattern::Whitespace => {
            let l = ws_scan(s, n, pos);
            if l > 0 {
                Some(l)
            } else {
                None
            }
        },
        Pattern::LineComment => {
            if n - pos >= 2 && s.get_char(pos) == '/' && s.get_char(pos + 1) == '/' {
                Some(2 + nonl_scan(s, n, pos + 2))
            } else {
                None
            }
        },
        Pattern::BlockComment => {
            if n - pos >= 2 && s.get_char(pos) == '/' && s.get_char(pos + 1) == '*' {
                let limit = pos + 2 + nonl_scan(s, n, pos + 2);
                let mut j = limit;
                loop
                    invariant
                        pos + 2 <= j <= limit <= n,
                        n == s@.len(),
                        p@ == PatternV::BlockComment,
                        s@[pos as int] == '/' && s@[pos as int + 1] == '*',
                        limit == pos + 2 + nonl_run(s@, pos as int + 2),
                        block_close(s@, pos as int, limit as int) == block_close(
                            s@,
                            pos as int,
                            j as int,
                        ),
                    decreases j,
                {
                    if j - pos < 4 {
                        proof {
                            assert(block_close(s@, pos as int, j as int) is None);
                            assert(pat_len(p@, s@, pos as int) is None);
                        }
                        return None;
                    }
                    if s.get_char(j - 2) == '*' && s.get_char(j - 1) == '/' {
                        proof {
                            assert(block_close(s@, pos as int, j as int) == Some(j - pos as int));
                            assert(pat_len(p@, s@, pos as int) == Some(j - pos as int));
                        }
                        return Some(j - pos);
                    }
                    j = j - 1;
                }
            } else {
                None
            }
        },
        Pattern::Ident => {
            if pos < n && {
                let c = s.get_char(pos);
                ('a' <= c && c <= 'z') || ('A' <= c && c <= 'Z') || c == '_'
            } {
                Some(1 + ident_scan(s, n, pos + 1))
            } else {
                None
            }
        },
        Pattern::Number => {
            let l = digit_scan(s, n, pos);
            if l > 0 {
                Some(l)
            } else {
                None
            }
        },
        Pattern::Lit(w) => {
            if lit_matches(s, n, pos, w.as_str()) {
                Some(w.unicode_len())
            } else {
                None
            }
        },
        Pattern::Word(w) => {
            if lit_matches(s, n, pos, w.as_str()) {
                let wn = w.unicode_len();
                if pos + wn == n || !is_word_char_exec(s.get_char(pos + wn)) {
                    Some(wn)
                } else {
                    None
                }
            } else {
                None
            }
        },
    }
}

} // verus!
