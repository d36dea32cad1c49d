//! Laws of the tokenizer, stated over lines built from quoting fragments.
//!
//! A line has balanced quoting when it is the concatenation of well-formed
//! [`Fragment`]s: characters outside quotes, backslash escapes, and closed
//! single- or double-quoted spans.

use vstd::prelude::*;
use crate::tokenizer::{finish, flush, initial_state, run, step, tokenize, white_space, LexState, Scope, TokenizeError};

verus! {

/// One piece of a line with balanced quoting.
pub enum Fragment {
    /// A character outside quotes that is none of `'`, `"` and `\`.
    Bare(char),
    /// A backslash outside quotes and the character it escapes.
    Escaped(char),
    /// A closed single-quoted span with this content.
    SingleQuoted(Seq<char>),
    /// A closed double-quoted span with this content, as written.
    DoubleQuoted(Seq<char>),
}

/// `s` does not hold `c`.
pub open spec fn free_of(s: Seq<char>, c: char) -> bool {
    forall|i: int| 0 <= i < s.len() ==> s[i] != c
}

/// Content that can stand between double quotes: no bare `"`, and every
/// backslash followed by a character.
pub open spec fn double_quotable(b: Seq<char>) -> bool
    decreases b.len(),
{
    if b.len() == 0 {
        true
    } else if b[0] == '"' {
        false
    } else if b[0] == '\\' {
        b.len() >= 2 && double_quotable(b.subrange(2, b.len() as int))
    } else {
        double_quotable(b.drop_first())
    }
}

/// What double-quoted content contributes to a word: a backslash before `"`
/// or `\` is dropped, any other is kept.
pub open spec fn double_quoted_value(b: Seq<char>) -> Seq<char>
    decreases b.len(),
{
    if b.len() == 0 {
        Seq::empty()
    } else if b[0] == '\\' && b.len() >= 2 {
        let e = if b[1] == '"' || b[1] == '\\' {
            seq![b[1]]
        } else {
            seq!['\\', b[1]]
        };
        e + double_quoted_value(b.subrange(2, b.len() as int))
    } else {
        seq![b[0]] + double_quoted_value(b.drop_first())
    }
}

pub open spec fn well_formed(f: Fragment) -> bool {
    match f {
        Fragment::Bare(c) => c != '\'' && c != '"' && c != '\\',
        Fragment::Escaped(_) => true,
        Fragment::SingleQuoted(b) => free_of(b, '\''),
        Fragment::DoubleQuoted(b) => double_quotable(b),
    }
}

pub open spec fn all_well_formed(fs: Seq<Fragment>) -> bool {
    forall|i: int| 0 <= i < fs.len() ==> well_formed(#[trigger] fs[i])
}

/// How a fragment is written in a line.
pub open spec fn source(f: Fragment) -> Seq<char> {
    match f {
        Fragment::Bare(c) => seq![c],
        Fragment::Escaped(c) => seq!['\\', c],
        Fragment::SingleQuoted(b) => seq!['\''] + b + seq!['\''],
        Fragment::DoubleQuoted(b) => seq!['"'] + b + seq!['"'],
    }
}

/// The line made of the fragments, in order.
pub open spec fn source_of(fs: Seq<Fragment>) -> Seq<char>
    decreases fs.len(),
{
    if fs.len() == 0 {
        Seq::empty()
    } else {
        source(fs[0]) + source_of(fs.drop_first())
    }
}

/// What a fragment adds to the word in progress.
pub open spec fn value(f: Fragment) -> Seq<char> {
    match f {
        Fragment::Bare(c) => seq![c],
        Fragment::Escaped(c) => seq![c],
        Fragment::SingleQuoted(b) => b,
        Fragment::DoubleQuoted(b) => double_quoted_value(b),
    }
}

pub open spec fn value_of(fs: Seq<Fragment>) -> Seq<char>
    decreases fs.len(),
{
    if fs.len() == 0 {
        Seq::empty()
    } else {
        value(fs[0]) + value_of(fs.drop_first())
    }
}

/// A whitespace character outside quotes.
pub open spec fn is_separator(f: Fragment) -> bool {
    f matches Fragment::Bare(c) && white_space(c)
}

/// A whitespace character outside quotes, or an empty quoted span.
pub open spec fn is_blank(f: Fragment) -> bool {
    ||| is_separator(f)
    ||| f == Fragment::SingleQuoted(Seq::empty())
    ||| f == Fragment::DoubleQuoted(Seq::empty())
}

proof fn lemma_run_concat(st: LexState, a: Seq<char>, b: Seq<char>)
    ensures
        run(st, a + b) == run(run(st, a), b),
    decreases b.len(),
{
    if b.len() == 0 {
        assert(a + b =~= a);
    } else {
        assert((a + b).drop_last() =~= a + b.drop_last());
        assert((a + b).last() == b.last());
        lemma_run_concat(st, a, b.drop_last());
    }
}

proof fn lemma_run_one(st: LexState, c: char)
    ensures
        run(st, seq![c]) == step(st, c, white_space(c)),
{
    assert(seq![c].drop_last() =~= Seq::<char>::empty());
    assert(seq![c].last() == c);
    assert(run(st, Seq::<char>::empty()) == st);
}

proof fn lemma_run_cons(st: LexState, c: char, rest: Seq<char>)
    ensures
        run(st, seq![c] + rest) == run(step(st, c, white_space(c)), rest),
{
    lemma_run_concat(st, seq![c], rest);
    lemma_run_one(st, c);
}

proof fn lemma_single_quoted_body(st: LexState, b: Seq<char>)
    requires
        st.scope == Scope::SingleQuoted,
        free_of(b, '\''),
    ensures
        run(st, b) == (LexState { current: st.current + b, ..st }),
    decreases b.len(),
{
    if b.len() == 0 {
        assert(st.current + b =~= st.current);
    } else {
        assert(b.last() == b[b.len() - 1]);
        lemma_single_quoted_body(st, b.drop_last());
        assert((st.current + b.drop_last()).push(b.last()) =~= st.current + b);
    }
}

proof fn lemma_double_quoted_body(st: LexState, b: Seq<char>)
    requires
        st.scope == Scope::DoubleQuoted,
        double_quotable(b),
    ensures
        run(st, b) == (LexState { current: st.current + double_quoted_value(b), ..st }),
    decreases b.len(),
{
    if b.len() == 0 {
        assert(st.current + double_quoted_value(b) =~= st.current);
    } else if b[0] == '\\' {
        let rest = b.subrange(2, b.len() as int);
        let mid = step(step(st, b[0], white_space(b[0])), b[1], white_space(b[1]));
        assert(b =~= seq![b[0]] + (seq![b[1]] + rest));
        lemma_run_cons(st, b[0], seq![b[1]] + rest);
        lemma_run_cons(step(st, b[0], white_space(b[0])), b[1], rest);
        lemma_double_quoted_body(mid, rest);
        assert(mid.current + double_quoted_value(rest) =~= st.current + double_quoted_value(b));
    } else {
        let rest = b.drop_first();
        assert(b =~= seq![b[0]] + rest);
        lemma_run_cons(st, b[0], rest);
        lemma_double_quoted_body(step(st, b[0], white_space(b[0])), rest);
        assert(st.current.push(b[0]) + double_quoted_value(rest) =~= st.current
            + double_quoted_value(b));
    }
}

/// The state after one fragment read outside quotes.
pub open spec fn after_fragment(st: LexState, f: Fragment) -> LexState {
    if is_separator(f) {
        LexState { words: flush(st.words, st.current), current: Seq::empty(), ..st }
    } else {
        LexState { current: st.current + value(f), ..st }
    }
}

proof fn lemma_run_fragment(st: LexState, f: Fragment)
    requires
        st.scope == Scope::Unquoted,
        well_formed(f),
    ensures
        run(st, source(f)) == after_fragment(st, f),
{
    match f {
        Fragment::Bare(c) => {
            lemma_run_one(st, c);
            assert(st.current.push(c) =~= st.current + seq![c]);
        },
        Fragment::Escaped(c) => {
            let s1 = step(st, '\\', white_space('\\'));
            assert(seq!['\\', c] =~= seq!['\\'] + seq![c]);
            lemma_run_cons(st, '\\', seq![c]);
            lemma_run_one(s1, c);
            assert(st.current.push(c) =~= st.current + seq![c]);
        },
        Fragment::SingleQuoted(b) => {
            let s1 = step(st, '\'', white_space('\''));
            assert(source(f) =~= seq!['\''] + (b + seq!['\'']));
            lemma_run_cons(st, '\'', b + seq!['\'']);
            lemma_run_concat(s1, b, seq!['\'']);
            lemma_single_quoted_body(s1, b);
            lemma_run_one(run(s1, b), '\'');
        },
        Fragment::DoubleQuoted(b) => {
            let s1 = step(st, '"', white_space('"'));
            assert(source(f) =~= seq!['"'] + (b + seq!['"']));
            lemma_run_cons(st, '"', b + seq!['"']);
            lemma_run_concat(s1, b, seq!['"']);
            lemma_double_quoted_body(s1, b);
            lemma_run_one(run(s1, b), '"');
        },
    }
}

proof fn lemma_run_fragments_scope(st: LexState, fs: Seq<Fragment>)
    requires
        st.scope == Scope::Unquoted,
        all_well_formed(fs),
    ensures
        run(st, source_of(fs)).scope == Scope::Unquoted,
    decreases fs.len(),
{
    if fs.len() > 0 {
        let rest = fs.drop_first();
        assert(well_formed(fs[0]));
        assert(all_well_formed(rest)) by {
            assert forall|i: int| 0 <= i < rest.len() implies well_formed(#[trigger] rest[i]) by {
                assert(rest[i] == fs[i + 1]);
            }
        }
        lemma_run_concat(st, source(fs[0]), source_of(rest));
        lemma_run_fragment(st, fs[0]);
        lemma_run_fragments_scope(after_fragment(st, fs[0]), rest);
    }
}

proof fn lemma_run_joined(st: LexState, fs: Seq<Fragment>)
    requires
        st.scope == Scope::Unquoted,
        all_well_formed(fs),
        forall|i: int| 0 <= i < fs.len() ==> !is_separator(#[trigger] fs[i]),
    ensures
        run(st, source_of(fs)) == (LexState { current: st.current + value_of(fs), ..st }),
    decreases fs.len(),
{
    if fs.len() == 0 {
        assert(st.current + value_of(fs) =~= st.current);
    } else {
        let rest = fs.drop_first();
        assert(well_formed(fs[0]) && !is_separator(fs[0]));
        assert forall|i: int| 0 <= i < rest.len() implies well_formed(#[trigger] rest[i])
            && !is_separator(rest[i]) by {
            assert(rest[i] == fs[i + 1]);
        }
        lemma_run_concat(st, source(fs[0]), source_of(rest));
        lemma_run_fragment(st, fs[0]);
        lemma_run_joined(after_fragment(st, fs[0]), rest);
        assert(st.current + value(fs[0]) + value_of(rest) =~= st.current + value_of(fs));
    }
}

proof fn lemma_run_blank(st: LexState, fs: Seq<Fragment>)
    requires
        st.scope == Scope::Unquoted,
        st.current.len() == 0,
        all_well_formed(fs),
        forall|i: int| 0 <= i < fs.len() ==> is_blank(#[trigger] fs[i]),
    ensures
        run(st, source_of(fs)) == st,
    decreases fs.len(),
{
    if fs.len() > 0 {
        let rest = fs.drop_first();
        assert(is_blank(fs[0]));
        assert(well_formed(fs[0]));
        assert forall|i: int| 0 <= i < rest.len() implies is_blank(#[trigger] rest[i])
            && well_formed(rest[i]) by {
            assert(rest[i] == fs[i + 1]);
        }
        lemma_run_concat(st, source(fs[0]), source_of(rest));
        lemma_run_fragment(st, fs[0]);
        assert(st.current =~= Seq::<char>::empty());
        if !is_separator(fs[0]) {
            assert(value(fs[0]) =~= Seq::<char>::empty());
            assert(st.current + value(fs[0]) =~= st.current);
        }
        assert(after_fragment(st, fs[0]) == st);
        lemma_run_blank(st, rest);
    }
}

/// A line with balanced quoting always splits into words: it never ends
/// inside a quote or after a lone backslash.
pub proof fn balanced_input_never_dangles(fs: Seq<Fragment>)
    requires
        all_well_formed(fs),
    ensures
        tokenize(source_of(fs)) is Ok,
{
    lemma_run_fragments_scope(initial_state(), fs);
}

/// Fragments written next to each other, with no whitespace outside quotes
/// between them, make one word: the concatenation of their values, or no
/// word when that is empty.
pub proof fn adjacent_fragments_join(fs: Seq<Fragment>)
    requires
        all_well_formed(fs),
        forall|i: int| 0 <= i < fs.len() ==> !is_separator(#[trigger] fs[i]),
    ensures
        tokenize(source_of(fs)) == Ok::<Seq<Seq<char>>, TokenizeError>(
            if value_of(fs).len() == 0 {
                Seq::empty()
            } else {
                seq![value_of(fs)]
            },
        ),
{
    lemma_run_joined(initial_state(), fs);
    assert(Seq::<char>::empty() + value_of(fs) =~= value_of(fs));
    assert(Seq::<Seq<char>>::empty().push(value_of(fs)) =~= seq![value_of(fs)]);
}

/// A line made only of whitespace and empty quotes has no words.
pub proof fn blank_input_has_no_words(fs: Seq<Fragment>)
    requires
        all_well_formed(fs),
        forall|i: int| 0 <= i < fs.len() ==> is_blank(#[trigger] fs[i]),
    ensures
        tokenize(source_of(fs)) == Ok::<Seq<Seq<char>>, TokenizeError>(Seq::empty()),
{
    lemma_run_blank(initial_state(), fs);
}

proof fn lemma_one_fragment(f: Fragment)
    ensures
        source_of(seq![f]) == source(f),
        value_of(seq![f]) == value(f),
{
    assert(seq![f].drop_first() =~= Seq::<Fragment>::empty());
    assert(seq![f][0] == f);
    assert(source_of(Seq::<Fragment>::empty()) == Seq::<char>::empty());
    assert(value_of(Seq::<Fragment>::empty()) == Seq::<char>::empty());
    assert(source(f) + Seq::<char>::empty() =~= source(f));
    assert(value(f) + Seq::<char>::empty() =~= value(f));
}

/// Single-quoted content becomes the word exactly as written: no character
/// in it, backslash included, is interpreted.
pub proof fn single_quotes_are_verbatim(body: Seq<char>)
    requires
        free_of(body, '\''),
    ensures
        tokenize(seq!['\''] + body + seq!['\'']) == Ok::<Seq<Seq<char>>, TokenizeError>(
            if body.len() == 0 {
                Seq::empty()
            } else {
                seq![body]
            },
        ),
{
    let f = Fragment::SingleQuoted(body);
    lemma_one_fragment(f);
    adjacent_fragments_join(seq![f]);
}

/// Inside double quotes a backslash escapes only `"` and `\`; before any
/// other character both are kept.
pub proof fn double_quotes_escape_only_quote_and_backslash(c: char)
    ensures
        tokenize(seq!['"', '\\', c, '"']) == Ok::<Seq<Seq<char>>, TokenizeError>(
            seq![
                if c == '"' || c == '\\' {
                    seq![c]
                } else {
                    seq!['\\', c]
                },
            ],
        ),
{
    let b = seq!['\\', c];
    let f = Fragment::DoubleQuoted(b);
    assert(b[0] == '\\' && b[1] == c && b.len() == 2);
    assert(b.subrange(2, 2) =~= Seq::<char>::empty());
    assert(double_quotable(Seq::<char>::empty()));
    assert(double_quoted_value(Seq::<char>::empty()) == Seq::<char>::empty());
    assert(double_quotable(b));
    let e = if c == '"' || c == '\\' {
        seq![c]
    } else {
        seq!['\\', c]
    };
    assert(double_quoted_value(b) =~= e + Seq::<char>::empty());
    assert(source(f) =~= seq!['"', '\\', c, '"']);
    lemma_one_fragment(f);
    adjacent_fragments_join(seq![f]);
}

/// Outside quotes a backslash escapes the next character, whatever it is,
/// and is itself dropped.
pub proof fn unquoted_backslash_escapes(c: char)
    ensures
        tokenize(seq!['\\', c]) == Ok::<Seq<Seq<char>>, TokenizeError>(seq![seq![c]]),
{
    let f = Fragment::Escaped(c);
    lemma_one_fragment(f);
    adjacent_fragments_join(seq![f]);
}

proof fn lemma_after_balanced(fs: Seq<Fragment>, tail: Seq<char>)
    requires
        all_well_formed(fs),
    ensures
        tokenize(source_of(fs) + tail) == finish(run(run(initial_state(), source_of(fs)), tail)),
        run(initial_state(), source_of(fs)).scope == Scope::Unquoted,
{
    lemma_run_concat(initial_state(), source_of(fs), tail);
    lemma_run_fragments_scope(initial_state(), fs);
}

/// A single quote that is never closed, after a line with balanced quoting,
/// leaves the line without words.
pub proof fn unclosed_single_quote_dangles(fs: Seq<Fragment>, body: Seq<char>)
    requires
        all_well_formed(fs),
        free_of(body, '\''),
    ensures
        tokenize(source_of(fs) + (seq!['\''] + body)) == Err::<Seq<Seq<char>>, TokenizeError>(
            TokenizeError::DanglingSingleQuote,
        ),
{
    let st = run(initial_state(), source_of(fs));
    lemma_after_balanced(fs, seq!['\''] + body);
    lemma_run_cons(st, '\'', body);
    lemma_single_quoted_body(step(st, '\'', white_space('\'')), body);
}

/// A double quote that is never closed, after a line with balanced quoting,
/// leaves the line without words; so does a backslash at the end of the
/// unclosed span.
pub proof fn unclosed_double_quote_dangles(fs: Seq<Fragment>, body: Seq<char>)
    requires
        all_well_formed(fs),
        double_quotable(body),
    ensures
        tokenize(source_of(fs) + (seq!['"'] + body)) == Err::<Seq<Seq<char>>, TokenizeError>(
            TokenizeError::DanglingDoubleQuote,
        ),
        tokenize(source_of(fs) + (seq!['"'] + body + seq!['\\']))
            == Err::<Seq<Seq<char>>, TokenizeError>(
            TokenizeError::DanglingDoubleQuoteBeforeBackslash,
        ),
{
    let st = run(initial_state(), source_of(fs));
    let s1 = step(st, '"', white_space('"'));
    lemma_after_balanced(fs, seq!['"'] + body);
    lemma_run_cons(st, '"', body);
    lemma_double_quoted_body(s1, body);
    lemma_after_balanced(fs, seq!['"'] + body + seq!['\\']);
    assert(seq!['"'] + body + seq!['\\'] =~= seq!['"'] + (body + seq!['\\']));
    lemma_run_cons(st, '"', body + seq!['\\']);
    lemma_run_concat(s1, body, seq!['\\']);
    lemma_run_one(run(s1, body), '\\');
}

/// A backslash at the very end of a line with balanced quoting is refused:
/// a line is never continued on the next one.
pub proof fn trailing_backslash_unsupported(fs: Seq<Fragment>)
    requires
        all_well_formed(fs),
    ensures
        tokenize(source_of(fs) + seq!['\\']) == Err::<Seq<Seq<char>>, TokenizeError>(
            TokenizeError::UnsupportedTrailingBackslash,
        ),
{
    lemma_after_balanced(fs, seq!['\\']);
    lemma_run_one(run(initial_state(), source_of(fs)), '\\');
}

/// Every emitted word has at least one character.
pub open spec fn all_nonempty(words: Seq<Seq<char>>) -> bool {
    forall|i: int| 0 <= i < words.len() ==> (#[trigger] words[i]).len() > 0
}

proof fn lemma_run_keeps_words_nonempty(st: LexState, s: Seq<char>)
    requires
        all_nonempty(st.words),
    ensures
        all_nonempty(run(st, s).words),
    decreases s.len(),
{
    if s.len() > 0 {
        lemma_run_keeps_words_nonempty(st, s.drop_last());
    }
}

/// Whitespace never produces an empty word: every word of a line has at
/// least one character.
pub proof fn words_are_never_empty(s: Seq<char>)
    ensures
        tokenize(s) is Ok ==> all_nonempty(tokenize(s)->Ok_0),
{
    lemma_run_keeps_words_nonempty(initial_state(), s);
}

} // verus!
