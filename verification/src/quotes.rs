//! A tokenizer that splits a command line into arguments at spaces, except
//! inside double quotes.

use vstd::prelude::*;

verus! {

/// The tokenizer's state between two characters.
pub struct Scan {
    /// The tokens closed so far, in order.
    pub tokens: Seq<Seq<char>>,
    /// The characters gathered for the token that is still open.
    pub buffer: Seq<char>,
    /// Whether an opening quote is waiting for its closing quote.
    pub quoted: bool,
}

/// The state before the first character: nothing gathered, outside quotes.
pub open spec fn initial() -> Scan {
    Scan { tokens: Seq::empty(), buffer: Seq::empty(), quoted: false }
}

/// The state after reading `c` in state `st`.
///
/// A double quote switches between inside and outside and is dropped. A space
/// outside quotes closes the open token if it holds anything, and is dropped
/// too. Every other character, and a space inside quotes, joins the open
/// token.
pub open spec fn step(st: Scan, c: char) -> Scan {
    if c == '"' {
        Scan { quoted: !st.quoted, ..st }
    } else if c == ' ' && !st.quoted {
        if st.buffer.len() > 0 {
            Scan { tokens: st.tokens.push(st.buffer), buffer: Seq::empty(), quoted: false }
        } else {
            st
        }
    } else {
        Scan { buffer: st.buffer.push(c), ..st }
    }
}

/// The state after reading all of `s`, one character after the other,
/// starting in state `st`.
pub open spec fn scan_from(st: Scan, s: Seq<char>) -> Scan
    decreases s.len(),
{
    if s.len() == 0 {
        st
    } else {
        step(scan_from(st, s.drop_last()), s.last())
    }
}

/// The tokens that a scan ending in state `st` yields: the closed ones, and
/// the open one if it holds anything, whether or not a quote is still open.
pub open spec fn finish(st: Scan) -> Seq<Seq<char>> {
    if st.buffer.len() > 0 {
        st.tokens.push(st.buffer)
    } else {
        st.tokens
    }
}

/// The tokens of `s`.
pub open spec fn tokens_of(s: Seq<char>) -> Seq<Seq<char>> {
    finish(scan_from(initial(), s))
}

/// Splits `text` into its tokens.
pub fn parse_quotes(text: &str) -> (tokens: Vec<String>)
    ensures
        tokens.deep_view() == tokens_of(text@),
{
    let mut tokens: Vec<String> = Vec::new();
    let mut buffer = String::new();
    let mut quoted = false;
    proof {
        assert(tokens.deep_view() =~= initial().tokens);
    }
    for c in it: text.chars()
        invariant
            it.seq() == text@,
            tokens.deep_view() == scan_from(initial(), text@.take(it.index())).tokens,
            buffer@ == scan_from(initial(), text@.take(it.index())).buffer,
            quoted == scan_from(initial(), text@.take(it.index())).quoted,
    {
        let ghost before = scan_from(initial(), text@.take(it.index()));
        proof {
            let read = text@.take(it.index() + 1);
            assert(read.drop_last() =~= text@.take(it.index()));
            assert(read.last() == c);
        }
        if c == '"' {
            quoted = !quoted;
        } else if c == ' ' && !quoted {
            if !buffer.as_str().is_empty() {
                let ghost closed = tokens.deep_view();
                tokens.push(buffer);
                buffer = String::new();
                proof {
                    assert(tokens.deep_view() =~= closed.push(before.buffer));
                }
            }
        } else {
            buffer.push(c);
        }
    }
    proof {
        assert(text@.take(text@.len() as int) =~= text@);
    }
    if !buffer.as_str().is_empty() {
        let ghost closed = tokens.deep_view();
        let ghost open = buffer@;
        tokens.push(buffer);
        proof {
            assert(tokens.deep_view() =~= closed.push(open));
        }
    }
    tokens
}

/// Whether `t` can come out of the tokenizer as one token: it holds at least
/// one character and no double quote.
pub open spec fn is_token(t: Seq<char>) -> bool {
    t.len() > 0 && !t.contains('"')
}

/// Whether every element of `ts` is a token.
pub open spec fn all_tokens(ts: Seq<Seq<char>>) -> bool {
    forall|i: int| 0 <= i < ts.len() ==> is_token(#[trigger] ts[i])
}

/// The token `t` as it is written on a command line: between double quotes
/// where it holds a space, bare otherwise.
pub open spec fn quoted_form(t: Seq<char>) -> Seq<char> {
    if t.contains(' ') {
        seq!['"'] + t + seq!['"']
    } else {
        t
    }
}

/// The command line that writes the tokens `ts` in order, each in its quoted
/// form, with one space between neighbours.
pub open spec fn rejoin(ts: Seq<Seq<char>>) -> Seq<char>
    decreases ts.len(),
{
    if ts.len() == 0 {
        Seq::empty()
    } else if ts.len() == 1 {
        quoted_form(ts[0])
    } else {
        rejoin(ts.drop_last()) + seq![' '] + quoted_form(ts.last())
    }
}

/// Reading `a` and then `b` is reading `a + b`.
pub proof fn lemma_scan_concat(st: Scan, a: Seq<char>, b: Seq<char>)
    ensures
        scan_from(st, a + b) == scan_from(scan_from(st, a), b),
    decreases b.len(),
{
    if b.len() == 0 {
        assert(a + b =~= a);
    } else {
        assert((a + b).drop_last() =~= a + b.drop_last());
        assert((a + b).last() == b.last());
        lemma_scan_concat(st, a, b.drop_last());
    }
}

/// Characters that are neither a quote nor, outside quotes, a space all join
/// the open token and change nothing else.
pub proof fn lemma_scan_gathers(st: Scan, s: Seq<char>)
    requires
        !s.contains('"'),
        st.quoted || !s.contains(' '),
    ensures
        scan_from(st, s) == (Scan { buffer: st.buffer + s, ..st }),
    decreases s.len(),
{
    if s.len() == 0 {
        assert(st.buffer + s =~= st.buffer);
    } else {
        let front = s.drop_last();
        assert forall|c: char| front.contains(c) implies s.contains(c) by {
            let i = choose|i: int| 0 <= i < front.len() && front[i] == c;
            assert(s[i] == c);
        }
        lemma_scan_gathers(st, front);
        assert(s.contains(s.last())) by {
            assert(s[s.len() - 1] == s.last());
        }
        assert((st.buffer + front).push(s.last()) =~= st.buffer + s);
    }
}

/// Read outside quotes with nothing gathered, the quoted form of a token
/// leaves exactly that token gathered, outside quotes again.
pub proof fn lemma_scan_quoted_form(st: Scan, t: Seq<char>)
    requires
        is_token(t),
        !st.quoted,
        st.buffer.len() == 0,
    ensures
        scan_from(st, quoted_form(t)) == (Scan { buffer: t, ..st }),
{
    assert(st.buffer + t =~= t);
    if t.contains(' ') {
        let quote = seq!['"'];
        let opened = Scan { quoted: true, ..st };
        assert(scan_from(st, quote) == opened) by {
            assert(quote.drop_last() =~= Seq::<char>::empty());
            assert(scan_from(st, quote.drop_last()) == st);
        }
        lemma_scan_concat(st, quote, t);
        lemma_scan_gathers(opened, t);
        let filled = Scan { buffer: t, ..opened };
        assert(scan_from(filled, quote) == (Scan { buffer: t, ..st })) by {
            assert(quote.drop_last() =~= Seq::<char>::empty());
            assert(scan_from(filled, quote.drop_last()) == filled);
        }
        lemma_scan_concat(st, quote + t, quote);
    } else {
        lemma_scan_gathers(st, t);
    }
}

/// Reading the rejoined form of a non-empty list of tokens from the start
/// closes all tokens but the last and leaves the last one gathered.
pub proof fn lemma_scan_rejoin(ts: Seq<Seq<char>>)
    requires
        all_tokens(ts),
        ts.len() > 0,
    ensures
        scan_from(initial(), rejoin(ts)) == (Scan {
            tokens: ts.drop_last(),
            buffer: ts.last(),
            quoted: false,
        }),
    decreases ts.len(),
{
    if ts.len() == 1 {
        lemma_scan_quoted_form(initial(), ts[0]);
        assert(ts.drop_last() =~= Seq::<Seq<char>>::empty());
    } else {
        let front = ts.drop_last();
        let space = seq![' '];
        assert(all_tokens(front)) by {
            assert forall|i: int| 0 <= i < front.len() implies is_token(#[trigger] front[i]) by {
                assert(front[i] == ts[i]);
            }
        }
        lemma_scan_rejoin(front);
        let gathered = scan_from(initial(), rejoin(front));
        let closed = Scan { tokens: front, buffer: Seq::empty(), quoted: false };
        assert(is_token(front.last()));
        assert(scan_from(gathered, space) == closed) by {
            assert(space.drop_last() =~= Seq::<char>::empty());
            assert(scan_from(gathered, space.drop_last()) == gathered);
            assert(front.drop_last().push(front.last()) =~= front);
        }
        lemma_scan_concat(initial(), rejoin(front), space);
        assert(is_token(ts.last()));
        lemma_scan_quoted_form(closed, ts.last());
        lemma_scan_concat(initial(), rejoin(front) + space, quoted_form(ts.last()));
    }
}

/// Writing a list of tokens out and tokenizing what was written gives the
/// list back.
pub proof fn lemma_rejoin_then_tokenize(ts: Seq<Seq<char>>)
    requires
        all_tokens(ts),
    ensures
        tokens_of(rejoin(ts)) == ts,
{
    if ts.len() > 0 {
        lemma_scan_rejoin(ts);
        assert(is_token(ts.last()));
        assert(ts.drop_last().push(ts.last()) =~= ts);
    }
}

/// Whatever has been read, each closed token is a token, and the open one
/// holds no double quote.
pub proof fn lemma_scan_keeps_tokens(st: Scan, s: Seq<char>)
    requires
        all_tokens(st.tokens),
        !st.buffer.contains('"'),
    ensures
        all_tokens(scan_from(st, s).tokens),
        !scan_from(st, s).buffer.contains('"'),
    decreases s.len(),
{
    if s.len() > 0 {
        lemma_scan_keeps_tokens(st, s.drop_last());
        let before = scan_from(st, s.drop_last());
        let after = scan_from(st, s);
        let c = s.last();
        if c != '"' && !(c == ' ' && !before.quoted) {
            assert forall|i: int| 0 <= i < after.buffer.len() implies after.buffer[i] != '"' by {
                if i < before.buffer.len() {
                    assert(before.buffer.contains(before.buffer[i]));
                }
            }
        }
    }
}

/// Every token that the tokenizer gives holds at least one character and no
/// double quote.
pub proof fn lemma_tokens_are_tokens(s: Seq<char>)
    ensures
        all_tokens(tokens_of(s)),
{
    assert(!initial().buffer.contains('"'));
    lemma_scan_keeps_tokens(initial(), s);
}

/// Tokenizing is stable: the tokens of a text, written out with single
/// spaces and with quotes round those that hold a space, tokenize to
/// themselves.
pub proof fn lemma_retokenize(s: Seq<char>)
    ensures
        tokens_of(rejoin(tokens_of(s))) == tokens_of(s),
{
    lemma_tokens_are_tokens(s);
    lemma_rejoin_then_tokenize(tokens_of(s));
}

/// A text of spaces only, the empty text among them, has no tokens.
pub proof fn lemma_spaces_have_no_tokens(s: Seq<char>)
    requires
        forall|i: int| 0 <= i < s.len() ==> s[i] == ' ',
    ensures
        scan_from(initial(), s) == initial(),
        tokens_of(s).len() == 0,
    decreases s.len(),
{
    if s.len() > 0 {
        lemma_spaces_have_no_tokens(s.drop_last());
    }
}

} // verus!
