//! General properties of the tokenizer, stated and proved once for all
//! inputs: blank lines hold no words, words joined with spaces tokenize
//! back to themselves, unmatched quotes and a trailing backslash fail, and
//! what quoting makes literal.

use crate::text::join_words;
use crate::tokenizer::is_dq_escapable;
use crate::tokenizer::is_line_ws;
use crate::tokenizer::lex;
use crate::tokenizer::lex_finish;
use crate::tokenizer::lex_from;
use crate::tokenizer::lex_init;
use crate::tokenizer::lex_step;
use crate::tokenizer::tokenize_spec;
use crate::tokenizer::trim_back;
use crate::tokenizer::trim_front;
use crate::tokenizer::trim_ws;
use crate::tokenizer::LexError;
use crate::tokenizer::LexMode;
use crate::tokenizer::LexState;
use vstd::prelude::*;

verus! {

/// Trimming a sequence of nothing but whitespace leaves nothing.
proof fn lemma_trim_all_ws(s: Seq<char>)
    requires
        forall|i: int| 0 <= i < s.len() ==> is_line_ws(s[i]),
    ensures
        trim_front(s) =~= Seq::<char>::empty(),
    decreases s.len(),
{
    if s.len() > 0 {
        assert(is_line_ws(s[0]));
        lemma_trim_all_ws(s.drop_first());
    }
}

/// Law: a line of nothing but whitespace, or an empty line, holds no
/// words.
pub proof fn lemma_blank_line_no_words(s: Seq<char>)
    requires
        forall|i: int| 0 <= i < s.len() ==> is_line_ws(s[i]),
    ensures
        tokenize_spec(s) == Ok::<Seq<Seq<char>>, LexError>(Seq::empty()),
{
    lemma_trim_all_ws(s);
    assert(trim_ws(s) =~= Seq::<char>::empty());
}

/// Law: inside single quotes, every character up to the closing quote is
/// copied verbatim; backslash and double quote have no meaning there.
pub proof fn lemma_single_quote_opacity(st: LexState, body: Seq<char>)
    requires
        st.mode is SingleQuoted,
        forall|i: int| 0 <= i < body.len() ==> body[i] != '\'',
    ensures
        lex_from(st, body) == (LexState {
            mode: LexMode::SingleQuoted,
            started: st.started,
            cur: st.cur + body,
            toks: st.toks,
        }),
    decreases body.len(),
{
    if body.len() == 0 {
        assert(st.cur + body =~= st.cur);
        assert(lex_from(st, body) =~= (LexState {
            mode: LexMode::SingleQuoted,
            started: st.started,
            cur: st.cur + body,
            toks: st.toks,
        }));
    } else {
        lemma_single_quote_opacity(st, body.drop_last());
        assert((st.cur + body.drop_last()).push(body.last()) =~= st.cur + body);
        assert(lex_from(st, body) =~= (LexState {
            mode: LexMode::SingleQuoted,
            started: st.started,
            cur: st.cur + body,
            toks: st.toks,
        }));
    }
}

/// Law: inside double quotes, a backslash consumes itself exactly before
/// `"`, `\`, `$`, a backtick or a newline; before any other character it
/// stays in the word.
pub proof fn lemma_double_quote_escape(st: LexState, c: char)
    requires
        st.mode is DoubleQuoted,
    ensures
        is_dq_escapable(c) ==> lex_from(st, seq!['\\', c]) == (LexState {
            mode: LexMode::DoubleQuoted,
            started: st.started,
            cur: st.cur.push(c),
            toks: st.toks,
        }),
        !is_dq_escapable(c) ==> lex_from(st, seq!['\\', c]) == (LexState {
            mode: LexMode::DoubleQuoted,
            started: st.started,
            cur: st.cur.push('\\').push(c),
            toks: st.toks,
        }),
{
    let two = seq!['\\', c];
    let one = seq!['\\'];
    assert(two.drop_last() =~= one);
    assert(two.last() == c);
    assert(one.drop_last() =~= Seq::<char>::empty());
    assert(one.last() == '\\');
    assert(lex_from(st, one.drop_last()) == st);
    assert(lex_from(st, one) == lex_step(st, '\\'));
    assert(lex_from(st, two) == lex_step(lex_step(st, '\\'), c));
}

/// `trim_front` keeps a non-whitespace final character in place.
proof fn lemma_trim_front_keeps_last(s: Seq<char>)
    requires
        s.len() > 0,
        !is_line_ws(s.last()),
    ensures
        trim_front(s).len() > 0,
        trim_front(s).last() == s.last(),
    decreases s.len(),
{
    if is_line_ws(s[0]) {
        assert(s.len() > 1);
        assert(s.drop_first().last() == s.last());
        lemma_trim_front_keeps_last(s.drop_first());
    }
}

/// Law: an unescaped backslash at the very end of the line, outside any
/// quotes, is a lexical error.
pub proof fn lemma_trailing_backslash_error(s: Seq<char>)
    requires
        s.len() > 0,
        s.last() == '\\',
        lex(trim_ws(s).drop_last()).mode is Unquoted,
    ensures
        tokenize_spec(s) == Err::<Seq<Seq<char>>, LexError>(LexError::TrailingBackslash),
{
    lemma_trim_front_keeps_last(s);
    let t = trim_front(s);
    assert(!is_line_ws(t.last()));
    assert(trim_back(t) == t);
    assert(trim_ws(s) == t);
    assert(lex_from(lex_init(), t) == lex_step(lex_from(lex_init(), t.drop_last()), '\\'));
}

/// How many times `c` occurs in `s`.
pub open spec fn count_char(s: Seq<char>, c: char) -> nat
    decreases s.len(),
{
    if s.len() == 0 {
        0
    } else {
        (if s[0] == c {
            1nat
        } else {
            0nat
        }) + count_char(s.drop_first(), c)
    }
}

/// Counting from the back: the last character adds to the count of the
/// rest.
proof fn lemma_count_char_drop_last(s: Seq<char>, c: char)
    requires
        s.len() > 0,
    ensures
        count_char(s, c) == count_char(s.drop_last(), c) + (if s.last() == c {
            1nat
        } else {
            0nat
        }),
    decreases s.len(),
{
    if s.len() == 1 {
        assert(s.drop_last() =~= Seq::<char>::empty());
        assert(s.drop_first() =~= Seq::<char>::empty());
    } else {
        lemma_count_char_drop_last(s.drop_first(), c);
        assert(s.drop_first().drop_last() =~= s.drop_last().drop_first());
        assert(s.drop_first().last() == s.last());
        assert(s.drop_last()[0] == s[0]);
        assert(s.drop_last().len() > 0);
    }
}

/// Trimming keeps the count of any non-whitespace character.
proof fn lemma_count_trim_front(s: Seq<char>, c: char)
    requires
        !is_line_ws(c),
    ensures
        count_char(trim_front(s), c) == count_char(s, c),
    decreases s.len(),
{
    if s.len() > 0 && is_line_ws(s[0]) {
        lemma_count_trim_front(s.drop_first(), c);
    }
}

/// Trimming keeps the count of any non-whitespace character.
proof fn lemma_count_trim_back(s: Seq<char>, c: char)
    requires
        !is_line_ws(c),
    ensures
        count_char(trim_back(s), c) == count_char(s, c),
    decreases s.len(),
{
    if s.len() > 0 && is_line_ws(s.last()) {
        lemma_count_char_drop_last(s, c);
        lemma_count_trim_back(s.drop_last(), c);
    }
}

/// Characters the line avoids, the trimmed line avoids too.
proof fn lemma_trim_front_avoids(s: Seq<char>, a: char, b: char)
    requires
        forall|i: int| 0 <= i < s.len() ==> s[i] != a && s[i] != b,
    ensures
        forall|i: int|
            0 <= i < trim_front(s).len() ==> trim_front(s)[i] != a && trim_front(s)[i] != b,
    decreases s.len(),
{
    if s.len() > 0 && is_line_ws(s[0]) {
        let r = s.drop_first();
        assert forall|i: int| 0 <= i < r.len() implies r[i] != a && r[i] != b by {
            assert(r[i] == s[i + 1]);
        }
        lemma_trim_front_avoids(r, a, b);
        assert(trim_front(s) == trim_front(r));
        assert forall|i: int|
            0 <= i < trim_front(s).len() implies trim_front(s)[i] != a && trim_front(s)[i]
            != b by {
            assert(trim_front(s)[i] == trim_front(r)[i]);
        }
    } else {
        assert(trim_front(s) == s);
    }
}

/// Characters the line avoids, the trimmed line avoids too.
proof fn lemma_trim_back_avoids(s: Seq<char>, a: char, b: char)
    requires
        forall|i: int| 0 <= i < s.len() ==> s[i] != a && s[i] != b,
    ensures
        forall|i: int|
            0 <= i < trim_back(s).len() ==> trim_back(s)[i] != a && trim_back(s)[i] != b,
    decreases s.len(),
{
    if s.len() > 0 && is_line_ws(s.last()) {
        let r = s.drop_last();
        assert forall|i: int| 0 <= i < r.len() implies r[i] != a && r[i] != b by {
            assert(r[i] == s[i]);
        }
        lemma_trim_back_avoids(r, a, b);
        assert(trim_back(s) == trim_back(r));
        assert forall|i: int|
            0 <= i < trim_back(s).len() implies trim_back(s)[i] != a && trim_back(s)[i] != b by {
            assert(trim_back(s)[i] == trim_back(r)[i]);
        }
    } else {
        assert(trim_back(s) == s);
    }
}

/// With no double quote and no backslash, the scanner is inside single
/// quotes exactly when it has read an odd number of single quotes.
proof fn lemma_single_quote_parity(s: Seq<char>)
    requires
        forall|i: int| 0 <= i < s.len() ==> s[i] != '"' && s[i] != '\\',
    ensures
        lex(s).mode is Unquoted || lex(s).mode is SingleQuoted,
        (lex(s).mode is SingleQuoted) <==> count_char(s, '\'') % 2 == 1,
    decreases s.len(),
{
    if s.len() > 0 {
        assert forall|i: int|
            0 <= i < s.drop_last().len() implies s.drop_last()[i] != '"' && s.drop_last()[i]
            != '\\' by {
            assert(s.drop_last()[i] == s[i]);
        }
        lemma_single_quote_parity(s.drop_last());
        lemma_count_char_drop_last(s, '\'');
        assert(s[s.len() - 1] != '"' && s[s.len() - 1] != '\\');
        assert(lex_from(lex_init(), s) == lex_step(lex_from(lex_init(), s.drop_last()), s.last()));
    }
}

/// Law: with no double quote and no backslash in the line, an odd number
/// of single quotes leaves one unmatched, and the scan fails with the
/// unterminated-single-quote error.
pub proof fn lemma_odd_single_quotes_fail(s: Seq<char>)
    requires
        forall|i: int| 0 <= i < s.len() ==> s[i] != '"' && s[i] != '\\',
        count_char(s, '\'') % 2 == 1,
    ensures
        tokenize_spec(s) == Err::<Seq<Seq<char>>, LexError>(LexError::UnterminatedSingleQuote),
{
    lemma_trim_front_avoids(s, '"', '\\');
    lemma_trim_back_avoids(trim_front(s), '"', '\\');
    lemma_count_trim_front(s, '\'');
    lemma_count_trim_back(trim_front(s), '\'');
    lemma_single_quote_parity(trim_ws(s));
}

/// With no single quote and no backslash, the scanner is inside double
/// quotes exactly when it has read an odd number of double quotes.
proof fn lemma_double_quote_parity(s: Seq<char>)
    requires
        forall|i: int| 0 <= i < s.len() ==> s[i] != '\'' && s[i] != '\\',
    ensures
        lex(s).mode is Unquoted || lex(s).mode is DoubleQuoted,
        (lex(s).mode is DoubleQuoted) <==> count_char(s, '"') % 2 == 1,
    decreases s.len(),
{
    if s.len() > 0 {
        assert forall|i: int|
            0 <= i < s.drop_last().len() implies s.drop_last()[i] != '\'' && s.drop_last()[i]
            != '\\' by {
            assert(s.drop_last()[i] == s[i]);
        }
        lemma_double_quote_parity(s.drop_last());
        lemma_count_char_drop_last(s, '"');
        assert(s[s.len() - 1] != '\'' && s[s.len() - 1] != '\\');
        assert(lex_from(lex_init(), s) == lex_step(lex_from(lex_init(), s.drop_last()), s.last()));
    }
}

/// Law: with no single quote and no backslash in the line, an odd number
/// of double quotes leaves one unmatched, and the scan fails with the
/// unterminated-double-quote error.
pub proof fn lemma_odd_double_quotes_fail(s: Seq<char>)
    requires
        forall|i: int| 0 <= i < s.len() ==> s[i] != '\'' && s[i] != '\\',
        count_char(s, '"') % 2 == 1,
    ensures
        tokenize_spec(s) == Err::<Seq<Seq<char>>, LexError>(LexError::UnterminatedDoubleQuote),
{
    lemma_trim_front_avoids(s, '\'', '\\');
    lemma_trim_back_avoids(trim_front(s), '\'', '\\');
    lemma_count_trim_front(s, '"');
    lemma_count_trim_back(trim_front(s), '"');
    lemma_double_quote_parity(trim_ws(s));
}

/// A character with no special meaning to the scanner: not a quote, not a
/// backslash, not whitespace.
pub open spec fn plain_char(c: char) -> bool {
    c != '\'' && c != '"' && c != '\\' && !is_line_ws(c)
}

/// A word the scanner reads back unchanged: non-empty and all plain.
pub open spec fn plain_word(w: Seq<char>) -> bool {
    w.len() > 0 && forall|i: int| 0 <= i < w.len() ==> plain_char(w[i])
}

/// Scanning plain characters outside quotes copies them into the open
/// word.
proof fn lemma_lex_plain_chars(st: LexState, w: Seq<char>)
    requires
        st.mode is Unquoted,
        forall|i: int| 0 <= i < w.len() ==> plain_char(w[i]),
    ensures
        lex_from(st, w) == (LexState {
            mode: LexMode::Unquoted,
            started: st.started || w.len() > 0,
            cur: st.cur + w,
            toks: st.toks,
        }),
    decreases w.len(),
{
    if w.len() == 0 {
        assert(st.cur + w =~= st.cur);
        assert(lex_from(st, w) =~= (LexState {
            mode: LexMode::Unquoted,
            started: st.started || w.len() > 0,
            cur: st.cur + w,
            toks: st.toks,
        }));
    } else {
        let r = w.drop_last();
        assert(forall|i: int| 0 <= i < r.len() ==> r[i] == w[i]);
        lemma_lex_plain_chars(st, r);
        assert(plain_char(w.last()));
        assert((st.cur + r).push(w.last()) =~= st.cur + w);
        assert(lex_from(st, w) =~= (LexState {
            mode: LexMode::Unquoted,
            started: st.started || w.len() > 0,
            cur: st.cur + w,
            toks: st.toks,
        }));
    }
}

/// After scanning plain words joined with spaces, the last word is still
/// open and the others have been emitted in order.
proof fn lemma_lex_join(ws: Seq<Seq<char>>)
    requires
        ws.len() > 0,
        forall|i: int| 0 <= i < ws.len() ==> plain_word(ws[i]),
    ensures
        lex(join_words(ws)) == (LexState {
            mode: LexMode::Unquoted,
            started: true,
            cur: ws.last(),
            toks: ws.drop_last(),
        }),
    decreases ws.len(),
{
    if ws.len() == 1 {
        assert(join_words(ws) == ws[0]);
        assert(plain_word(ws[0]));
        lemma_lex_plain_chars(lex_init(), ws[0]);
        assert(Seq::<char>::empty() + ws[0] =~= ws[0]);
        assert(ws.drop_last() =~= Seq::<Seq<char>>::empty());
        assert(lex(join_words(ws)) =~= (LexState {
            mode: LexMode::Unquoted,
            started: true,
            cur: ws.last(),
            toks: ws.drop_last(),
        }));
    } else {
        let prefix = ws.drop_last();
        assert forall|i: int| 0 <= i < prefix.len() implies plain_word(prefix[i]) by {
            assert(prefix[i] == ws[i]);
            assert(plain_word(ws[i]));
        }
        lemma_lex_join(prefix);
        let jp = join_words(prefix);
        let sp = seq![' '];
        let lw = ws.last();
        assert(join_words(ws) == jp + sp + lw);
        crate::tokenizer::lemma_lex_from_concat(lex_init(), jp + sp, lw);
        crate::tokenizer::lemma_lex_from_concat(lex_init(), jp, sp);
        let mid = lex_from(lex_init(), jp);
        assert(mid == (LexState {
            mode: LexMode::Unquoted,
            started: true,
            cur: prefix.last(),
            toks: prefix.drop_last(),
        }));
        assert(sp.drop_last() =~= Seq::<char>::empty());
        assert(sp.last() == ' ');
        assert(lex_from(mid, sp.drop_last()) == mid);
        assert(lex_from(mid, sp) == lex_step(mid, ' '));
        let flushed = lex_step(mid, ' ');
        assert(flushed == (LexState {
            mode: LexMode::Unquoted,
            started: false,
            cur: Seq::empty(),
            toks: prefix.drop_last().push(prefix.last()),
        }));
        assert(prefix.drop_last().push(prefix.last()) =~= prefix);
        assert(plain_word(lw));
        lemma_lex_plain_chars(flushed, lw);
        assert(Seq::<char>::empty() + lw =~= lw);
        assert(lex(join_words(ws)) =~= (LexState {
            mode: LexMode::Unquoted,
            started: true,
            cur: ws.last(),
            toks: ws.drop_last(),
        }));
    }
}

/// The joined line starts with the first word's first character and ends
/// with the last word's last character.
proof fn lemma_join_edges(ws: Seq<Seq<char>>)
    requires
        ws.len() > 0,
        forall|i: int| 0 <= i < ws.len() ==> ws[i].len() > 0,
    ensures
        join_words(ws).len() > 0,
        join_words(ws)[0] == ws[0][0],
        join_words(ws).last() == ws.last().last(),
    decreases ws.len(),
{
    if ws.len() == 1 {
        assert(join_words(ws) == ws[0]);
    } else {
        let prefix = ws.drop_last();
        assert forall|i: int| 0 <= i < prefix.len() implies prefix[i].len() > 0 by {
            assert(prefix[i] == ws[i]);
        }
        lemma_join_edges(prefix);
        let jp = join_words(prefix);
        assert(join_words(ws) == jp + seq![' '] + ws.last());
        assert((jp + seq![' '] + ws.last())[0] == jp[0]);
        assert((jp + seq![' '] + ws.last()).last() == ws.last().last());
    }
}

/// Law: joining plain words with single spaces and tokenizing gives back
/// exactly those words.  A word of special or whitespace characters, or an
/// empty word, need not survive the trip: quoting would be needed for it.
pub proof fn lemma_round_trip(ws: Seq<Seq<char>>)
    requires
        forall|i: int| 0 <= i < ws.len() ==> plain_word(ws[i]),
    ensures
        tokenize_spec(join_words(ws)) == Ok::<Seq<Seq<char>>, LexError>(ws),
{
    if ws.len() == 0 {
        assert(join_words(ws) =~= Seq::<char>::empty());
        assert(trim_ws(Seq::<char>::empty()) =~= Seq::<char>::empty());
        assert(ws =~= Seq::<Seq<char>>::empty());
    } else {
        assert forall|i: int| 0 <= i < ws.len() implies ws[i].len() > 0 by {
            assert(plain_word(ws[i]));
        }
        lemma_join_edges(ws);
        let j = join_words(ws);
        assert(plain_word(ws[0]) && plain_word(ws.last()));
        assert(plain_char(ws[0][0]));
        assert(plain_char(ws.last().last()));
        assert(plain_char(j[0]) && plain_char(j.last()));
        assert(trim_front(j) == j);
        assert(trim_back(j) == j);
        assert(trim_ws(j) == j);
        lemma_lex_join(ws);
        assert(lex_finish(lex(j)) == Ok::<Seq<Seq<char>>, LexError>(
            ws.drop_last().push(ws.last()),
        ));
        assert(ws.drop_last().push(ws.last()) =~= ws);
    }
}

} // verus!
