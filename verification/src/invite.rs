//! Extraction of the code from an invite link.

use vstd::prelude::*;

verus! {

/// The position just behind the last `/` of `s`; 0 where `s` holds none.
pub open spec fn code_start(s: Seq<char>) -> int
    decreases s.len(),
{
    if s.len() == 0 {
        0
    } else if s.last() == '/' {
        s.len() as int
    } else {
        code_start(s.drop_last())
    }
}

/// The invite code in `s`: what follows the last `/`, and all of `s` where
/// it holds none.
pub open spec fn invite_code(s: Seq<char>) -> Seq<char> {
    s.skip(code_start(s))
}

/// Takes the invite code out of a link such as `https://discord.gg/CODE`, or
/// out of a bare code. The result is a part of `text`; nothing is checked of
/// the link or of the code.
pub fn parse_invite<'a>(text: &'a str) -> (code: &'a str)
    ensures
        code@ == invite_code(text@),
{
    let n = text.unicode_len();
    let mut start: usize = 0;
    let mut i: usize = 0;
    for c in it: text.chars()
        invariant
            it.seq() == text@,
            n == text@.len(),
            i == it.index(),
            start == code_start(text@.take(i as int)),
    {
        proof {
            let read = text@.take(i + 1);
            assert(read.drop_last() =~= text@.take(i as int));
            assert(read.last() == c);
        }
        i += 1;
        if c == '/' {
            start = i;
        }
    }
    proof {
        assert(text@.take(n as int) =~= text@);
        lemma_code_start_in_bounds(text@);
    }
    text.substring_char(start, n)
}

/// The code starts inside the text or at its end.
pub proof fn lemma_code_start_in_bounds(s: Seq<char>)
    ensures
        0 <= code_start(s) <= s.len(),
    decreases s.len(),
{
    if s.len() > 0 && s.last() != '/' {
        lemma_code_start_in_bounds(s.drop_last());
    }
}

/// A text without `/` is its own invite code.
pub proof fn lemma_bare_code(s: Seq<char>)
    requires
        !s.contains('/'),
    ensures
        code_start(s) == 0,
        invite_code(s) == s,
    decreases s.len(),
{
    if s.len() > 0 {
        assert(s.contains(s.last())) by {
            assert(s[s.len() - 1] == s.last());
        }
        let front = s.drop_last();
        assert forall|c: char| front.contains(c) implies s.contains(c) by {
            let i = choose|i: int| 0 <= i < front.len() && front[i] == c;
            assert(s[i] == c);
        }
        lemma_bare_code(front);
    }
    assert(s.skip(0) =~= s);
}

/// Whatever stands before a `/`, the invite code is what follows it, as long
/// as that holds no further `/`.
pub proof fn lemma_code_follows_last_slash(link: Seq<char>, code: Seq<char>)
    requires
        !code.contains('/'),
    ensures
        invite_code(link + seq!['/'] + code) == code,
    decreases code.len(),
{
    let head = link + seq!['/'];
    let s = head + code;
    if code.len() == 0 {
        assert(s =~= head);
        assert(s.skip(s.len() as int) =~= code);
    } else {
        let front = code.drop_last();
        assert(code.contains(code.last())) by {
            assert(code[code.len() - 1] == code.last());
        }
        assert forall|c: char| front.contains(c) implies code.contains(c) by {
            let i = choose|i: int| 0 <= i < front.len() && front[i] == c;
            assert(code[i] == c);
        }
        lemma_code_follows_last_slash(link, front);
        assert(s.drop_last() =~= head + front);
        assert(s.last() == code.last());
        assert(code_start(s) == head.len()) by {
            assert((head + front).skip(code_start(head + front)) == front);
            lemma_code_start_in_bounds(head + front);
        }
        assert(s.skip(head.len() as int) =~= code);
    }
}

/// An invite code holds no `/`.
pub proof fn lemma_code_has_no_slash(s: Seq<char>)
    ensures
        !invite_code(s).contains('/'),
    decreases s.len(),
{
    lemma_code_start_in_bounds(s);
    if s.len() > 0 && s.last() != '/' {
        let front = s.drop_last();
        lemma_code_has_no_slash(front);
        lemma_code_start_in_bounds(front);
        let k = code_start(s);
        assert forall|i: int| 0 <= i < s.skip(k).len() implies s.skip(k)[i] != '/' by {
            if i < front.skip(k).len() {
                assert(front.skip(k)[i] == s.skip(k)[i]);
                assert(front.skip(k).contains(front.skip(k)[i]));
            }
        }
    }
}

} // verus!
