//! The line tokenizer: splits an input line into shell words.
//!
//! A single left-to-right scan over the trimmed input, with three quoting
//! modes.  Single quotes make everything literal until the closing quote;
//! double quotes make everything literal except the five escapes
//! `\"`, `\\`, `\$`, `` \` `` and `\<newline>`; an unquoted backslash makes
//! the next character literal.  Unquoted blanks separate words, and adjacent
//! quoted or unquoted segments concatenate into one word.
//!
//! The scan is modelled by the spec-level automaton `lex_step` / `lex_from`,
//! and `tokenize` is proved to return exactly `tokenize_spec` of its input.

use vstd::prelude::*;
use vstd::string::StrSliceExecFns;
use vstd::string::StringExecFns;

verus! {

/// A malformed line: quoting or escaping that cannot be completed.
#[derive(Clone, Copy, Debug, PartialEq, Eq, Structural)]
pub enum LexError {
    UnterminatedSingleQuote,
    UnterminatedDoubleQuote,
    TrailingBackslash,
}

impl LexError {
    /// The text the shell reports for this error.
    pub fn message(&self) -> (r: String)
        ensures
            *self is UnterminatedSingleQuote ==> r@ == "Unterminated single quote"@,
            *self is UnterminatedDoubleQuote ==> r@ == "Unterminated double quote"@,
            *self is TrailingBackslash ==> r@ == "Trailing backslash"@,
    {
        match self {
            LexError::UnterminatedSingleQuote => String::from_str("Unterminated single quote"),
            LexError::UnterminatedDoubleQuote => String::from_str("Unterminated double quote"),
            LexError::TrailingBackslash => String::from_str("Trailing backslash"),
        }
    }
}

/// An unquoted blank: separates words.
pub open spec fn is_blank(c: char) -> bool {
    c == ' ' || c == '\t'
}

/// Whitespace that is trimmed from both ends of the line before scanning:
/// the characters with the Unicode `White_Space` property.
pub open spec fn is_line_ws(c: char) -> bool {
    c == '\u{0009}' || c == '\u{000A}' || c == '\u{000B}' || c == '\u{000C}' || c == '\u{000D}'
        || c == '\u{0020}' || c == '\u{0085}' || c == '\u{00A0}' || c == '\u{1680}'
        || c == '\u{2000}' || c == '\u{2001}' || c == '\u{2002}' || c == '\u{2003}'
        || c == '\u{2004}' || c == '\u{2005}' || c == '\u{2006}' || c == '\u{2007}'
        || c == '\u{2008}' || c == '\u{2009}' || c == '\u{200A}' || c == '\u{2028}'
        || c == '\u{2029}' || c == '\u{202F}' || c == '\u{205F}' || c == '\u{3000}'
}

/// The five characters whose escape consumes a backslash inside double
/// quotes.
pub open spec fn is_dq_escapable(c: char) -> bool {
    c == '"' || c == '\\' || c == '$' || c == '`' || c == '\n'
}

/// `s` without its leading trimmed whitespace.
pub open spec fn trim_front(s: Seq<char>) -> Seq<char>
    decreases s.len(),
{
    if s.len() > 0 && is_line_ws(s[0]) {
        trim_front(s.drop_first())
    } else {
        s
    }
}

/// `s` without its trailing trimmed whitespace.
pub open spec fn trim_back(s: Seq<char>) -> Seq<char>
    decreases s.len(),
{
    if s.len() > 0 && is_line_ws(s.last()) {
        trim_back(s.drop_last())
    } else {
        s
    }
}

/// `s` without leading and trailing whitespace.
pub open spec fn trim_ws(s: Seq<char>) -> Seq<char> {
    trim_back(trim_front(s))
}

/// The lexical mode of the scanner at one instant.
#[derive(Clone, Copy, Debug, PartialEq, Eq, Structural)]
pub enum LexMode {
    /// Outside any quotes.
    Unquoted,
    /// Right after an unquoted backslash.
    Escaped,
    /// Inside `'…'`.
    SingleQuoted,
    /// Inside `"…"`.
    DoubleQuoted,
    /// Inside `"…"`, right after a backslash.
    DoubleEscaped,
}

/// The full scanner state: mode, whether a word is open, the text collected
/// for the open word, and the words already emitted.
#[verifier::ext_equal]
pub struct LexState {
    pub mode: LexMode,
    pub started: bool,
    pub cur: Seq<char>,
    pub toks: Seq<Seq<char>>,
}

/// The scanner state before any character has been read.
pub open spec fn lex_init() -> LexState {
    LexState { mode: LexMode::Unquoted, started: false, cur: Seq::empty(), toks: Seq::empty() }
}

/// One step of the scan: the state after reading `c` in state `st`.
pub open spec fn lex_step(st: LexState, c: char) -> LexState {
    match st.mode {
        LexMode::Unquoted => {
            if c == '\'' {
                LexState { mode: LexMode::SingleQuoted, started: true, cur: st.cur, toks: st.toks }
            } else if c == '"' {
                LexState { mode: LexMode::DoubleQuoted, started: true, cur: st.cur, toks: st.toks }
            } else if c == '\\' {
                LexState { mode: LexMode::Escaped, started: true, cur: st.cur, toks: st.toks }
            } else if is_blank(c) {
                if st.started {
                    LexState {
                        mode: LexMode::Unquoted,
                        started: false,
                        cur: Seq::empty(),
                        toks: st.toks.push(st.cur),
                    }
                } else {
                    st
                }
            } else {
                LexState {
                    mode: LexMode::Unquoted,
                    started: true,
                    cur: st.cur.push(c),
                    toks: st.toks,
                }
            }
        },
        LexMode::Escaped => LexState {
            mode: LexMode::Unquoted,
            started: st.started,
            cur: st.cur.push(c),
            toks: st.toks,
        },
        LexMode::SingleQuoted => {
            if c == '\'' {
                LexState { mode: LexMode::Unquoted, started: st.started, cur: st.cur, toks: st.toks }
            } else {
                LexState {
                    mode: LexMode::SingleQuoted,
                    started: st.started,
                    cur: st.cur.push(c),
                    toks: st.toks,
                }
            }
        },
        LexMode::DoubleQuoted => {
            if c == '"' {
                LexState { mode: LexMode::Unquoted, started: st.started, cur: st.cur, toks: st.toks }
            } else if c == '\\' {
                LexState {
                    mode: LexMode::DoubleEscaped,
                    started: st.started,
                    cur: st.cur,
                    toks: st.toks,
                }
            } else {
                LexState {
                    mode: LexMode::DoubleQuoted,
                    started: st.started,
                    cur: st.cur.push(c),
                    toks: st.toks,
                }
            }
        },
        LexMode::DoubleEscaped => {
            if is_dq_escapable(c) {
                LexState {
                    mode: LexMode::DoubleQuoted,
                    started: st.started,
                    cur: st.cur.push(c),
                    toks: st.toks,
                }
            } else {
                LexState {
                    mode: LexMode::DoubleQuoted,
                    started: st.started,
                    cur: st.cur.push('\\').push(c),
                    toks: st.toks,
                }
            }
        },
    }
}

/// The state after scanning all of `s`, starting from `st`.
pub open spec fn lex_from(st: LexState, s: Seq<char>) -> LexState
    decreases s.len(),
{
    if s.len() == 0 {
        st
    } else {
        lex_step(lex_from(st, s.drop_last()), s.last())
    }
}

/// The state after scanning all of `s` from the initial state.
pub open spec fn lex(s: Seq<char>) -> LexState {
    lex_from(lex_init(), s)
}

/// What the scan yields once the input ends in state `st`: the words, with
/// a still-open word appended, or the error the unfinished mode stands for.
pub open spec fn lex_finish(st: LexState) -> Result<Seq<Seq<char>>, LexError> {
    match st.mode {
        LexMode::Unquoted => Ok(
            if st.started {
                st.toks.push(st.cur)
            } else {
                st.toks
            },
        ),
        LexMode::Escaped => Err(LexError::TrailingBackslash),
        LexMode::SingleQuoted => Err(LexError::UnterminatedSingleQuote),
        LexMode::DoubleQuoted => Err(LexError::UnterminatedDoubleQuote),
        LexMode::DoubleEscaped => Err(LexError::UnterminatedDoubleQuote),
    }
}

/// The words of `s`, or the lexical error: trim, scan, finish.
pub open spec fn tokenize_spec(s: Seq<char>) -> Result<Seq<Seq<char>>, LexError> {
    lex_finish(lex(trim_ws(s)))
}

/// Whether the executable result `r` denotes the model result `m`.
pub open spec fn tokens_match(
    r: Result<Vec<String>, LexError>,
    m: Result<Seq<Seq<char>>, LexError>,
) -> bool {
    match r {
        Ok(v) => m matches Ok(s) && v.deep_view() == s,
        Err(e) => m matches Err(e2) && e == e2,
    }
}

/// Scanning a concatenation is scanning the two parts in turn.
pub proof fn lemma_lex_from_concat(st: LexState, a: Seq<char>, b: Seq<char>)
    ensures
        lex_from(st, a + b) == lex_from(lex_from(st, a), b),
    decreases b.len(),
{
    if b.len() == 0 {
        assert(a + b =~= a);
    } else {
        lemma_lex_from_concat(st, a, b.drop_last());
        assert((a + b).drop_last() =~= a + b.drop_last());
        assert((a + b).last() == b.last());
    }
}

/// Scanning one more character of `s` is one more `lex_step`.
pub proof fn lemma_lex_from_take_step(st: LexState, s: Seq<char>, k: int)
    requires
        0 <= k < s.len(),
    ensures
        lex_from(st, s.take(k + 1)) == lex_step(lex_from(st, s.take(k)), s[k]),
{
    assert(s.take(k + 1).drop_last() =~= s.take(k));
    assert(s.take(k + 1).last() == s[k]);
}

/// `trim_front` removes exactly the leading whitespace run.
proof fn lemma_trim_front_exact(s: Seq<char>, lo: int)
    requires
        0 <= lo <= s.len(),
        forall|k: int| 0 <= k < lo ==> is_line_ws(s[k]),
        lo == s.len() || !is_line_ws(s[lo]),
    ensures
        trim_front(s) =~= s.subrange(lo, s.len() as int),
    decreases lo,
{
    if lo == 0 {
        if s.len() == 0 || !is_line_ws(s[0]) {
            assert(trim_front(s) == s);
            assert(s.subrange(0, s.len() as int) =~= s);
        }
    } else {
        let rest = s.drop_first();
        assert(forall|k: int| 0 <= k < lo - 1 ==> is_line_ws(rest[k]));
        lemma_trim_front_exact(rest, lo - 1);
        assert(rest.subrange(lo - 1, rest.len() as int) =~= s.subrange(lo, s.len() as int));
    }
}

/// `trim_back` removes exactly the trailing whitespace run.
proof fn lemma_trim_back_exact(s: Seq<char>, hi: int)
    requires
        0 <= hi <= s.len(),
        forall|k: int| hi <= k < s.len() ==> is_line_ws(s[k]),
        hi == 0 || !is_line_ws(s[hi - 1]),
    ensures
        trim_back(s) =~= s.subrange(0, hi),
    decreases s.len() - hi,
{
    if hi == s.len() {
        if s.len() == 0 || !is_line_ws(s.last()) {
            assert(trim_back(s) == s);
            assert(s.subrange(0, s.len() as int) =~= s);
        }
    } else {
        let rest = s.drop_last();
        lemma_trim_back_exact(rest, hi);
        assert(rest.subrange(0, hi) =~= s.subrange(0, hi));
    }
}

/// Whether `c` is whitespace that the scan trims at the line's ends.
fn is_line_ws_char(c: char) -> (r: bool)
    ensures
        r == is_line_ws(c),
{
    c == '\u{0009}' || c == '\u{000A}' || c == '\u{000B}' || c == '\u{000C}' || c == '\u{000D}'
        || c == '\u{0020}' || c == '\u{0085}' || c == '\u{00A0}' || c == '\u{1680}'
        || c == '\u{2000}' || c == '\u{2001}' || c == '\u{2002}' || c == '\u{2003}'
        || c == '\u{2004}' || c == '\u{2005}' || c == '\u{2006}' || c == '\u{2007}'
        || c == '\u{2008}' || c == '\u{2009}' || c == '\u{200A}' || c == '\u{2028}'
        || c == '\u{2029}' || c == '\u{202F}' || c == '\u{205F}' || c == '\u{3000}'
}

/// Splits `input` into shell words, or reports the lexical error, exactly
/// as `tokenize_spec` describes.
#[verifier::loop_isolation(false)]
pub fn tokenize(input: &str) -> (r: Result<Vec<String>, LexError>)
    ensures
        tokens_match(r, tokenize_spec(input@)),
{
    let n = input.unicode_len();
    let mut lo: usize = 0;
    while lo < n && is_line_ws_char(input.get_char(lo))
        invariant
            lo <= n,
            forall|k: int| 0 <= k < lo ==> is_line_ws(input@[k]),
        decreases n - lo,
    {
        lo += 1;
    }
    let mut hi: usize = n;
    while hi > lo && is_line_ws_char(input.get_char(hi - 1))
        invariant
            lo <= hi <= n,
            forall|k: int| hi <= k < n ==> is_line_ws(input@[k]),
        decreases hi,
    {
        hi -= 1;
    }
    let ghost t = input@.subrange(lo as int, hi as int);
    proof {
        lemma_trim_front_exact(input@, lo as int);
        let f = input@.subrange(lo as int, input@.len() as int);
        lemma_trim_back_exact(f, hi - lo);
        assert(f.subrange(0, hi - lo) =~= t);
        assert(trim_ws(input@) == t);
    }

    let mut mode = LexMode::Unquoted;
    let mut started = false;
    let mut cur = String::new();
    let mut toks: Vec<String> = Vec::new();
    let mut i = lo;
    while i < hi
        invariant
            lo <= i <= hi,
            lex_from(lex_init(), t.take(i - lo)) == (LexState {
                mode: mode,
                started: started,
                cur: cur@,
                toks: toks.deep_view(),
            }),
        decreases hi - i,
    {
        let c = input.get_char(i);
        proof {
            assert(t[i - lo] == input@[i as int]);
            lemma_lex_from_take_step(lex_init(), t, i - lo);
        }
        let ghost prev = LexState { mode: mode, started: started, cur: cur@, toks: toks.deep_view() };
        match mode {
            LexMode::Unquoted => {
                if c == '\'' {
                    mode = LexMode::SingleQuoted;
                    started = true;
                } else if c == '"' {
                    mode = LexMode::DoubleQuoted;
                    started = true;
                } else if c == '\\' {
                    mode = LexMode::Escaped;
                    started = true;
                } else if c == ' ' || c == '\t' {
                    if started {
                        toks.push(cur);
                        cur = String::new();
                        started = false;
                    }
                } else {
                    cur.push(c);
                    started = true;
                }
            },
            LexMode::Escaped => {
                cur.push(c);
                mode = LexMode::Unquoted;
            },
            LexMode::SingleQuoted => {
                if c == '\'' {
                    mode = LexMode::Unquoted;
                } else {
                    cur.push(c);
                }
            },
            LexMode::DoubleQuoted => {
                if c == '"' {
                    mode = LexMode::Unquoted;
                } else if c == '\\' {
                    mode = LexMode::DoubleEscaped;
                } else {
                    cur.push(c);
                }
            },
            LexMode::DoubleEscaped => {
                if c == '"' || c == '\\' || c == '$' || c == '`' || c == '\n' {
                    cur.push(c);
                } else {
                    cur.push('\\');
                    cur.push(c);
                }
                mode = LexMode::DoubleQuoted;
            },
        }
        proof {
            assert(lex_step(prev, c) =~= (LexState {
                mode: mode,
                started: started,
                cur: cur@,
                toks: toks.deep_view(),
            }));
        }
        i += 1;
    }
    proof {
        assert(t.take(hi - lo) =~= t);
    }
    match mode {
        LexMode::Unquoted => {
            if started {
                toks.push(cur);
            }
            proof {
                assert(toks.deep_view() =~= (match tokenize_spec(input@) {
                    Ok(words) => words,
                    Err(_) => Seq::<Seq<char>>::empty(),
                }));
            }
            Ok(toks)
        },
        LexMode::Escaped => Err(LexError::TrailingBackslash),
        LexMode::SingleQuoted => Err(LexError::UnterminatedSingleQuote),
        LexMode::DoubleQuoted => Err(LexError::UnterminatedDoubleQuote),
        LexMode::DoubleEscaped => Err(LexError::UnterminatedDoubleQuote),
    }
}

} // verus!
