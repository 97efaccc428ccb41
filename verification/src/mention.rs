//! Parsers for the markers that stand for a user, a role, a channel or a
//! custom emoji in the text of a message.

use vstd::prelude::*;
use crate::digits::{decimal_id, decimal_value, is_digit, is_id_numeral, parse_id_in};
use crate::text::chars_of;

verus! {

/// What stands between `prefix` and a closing `>`, where `s` is made of
/// exactly these three parts one after the other.
pub open spec fn marker_body(s: Seq<char>, prefix: Seq<char>) -> Option<Seq<char>> {
    if s.len() > prefix.len() && s.take(prefix.len() as int) == prefix && s.last() == '>' {
        Some(s.subrange(prefix.len() as int, s.len() - 1))
    } else {
        None
    }
}

/// The identifier in the marker `s` that opens with `prefix`: `Some` exactly
/// when `s` is `prefix`, an identifier's numeral and `>`, and nothing else.
pub open spec fn marker_id(s: Seq<char>, prefix: Seq<char>) -> Option<u64> {
    match marker_body(s, prefix) {
        Some(body) => decimal_id(body),
        None => None,
    }
}

/// Reads `chars` as a marker that opens with `prefix`.
fn parse_marker(chars: &[char], prefix: &[char]) -> (id: Option<u64>)
    ensures
        id == marker_id(chars@, prefix@),
{
    let n = chars.len();
    let k = prefix.len();
    if n <= k || chars[n - 1] != '>' {
        return None;
    }
    let mut i: usize = 0;
    while i < k
        invariant
            i <= k < n,
            k == prefix@.len(),
            n == chars@.len(),
            chars@.take(i as int) == prefix@.take(i as int),
        decreases k - i,
    {
        if chars[i] != prefix[i] {
            proof {
                assert(chars@.take(k as int)[i as int] != prefix@[i as int]);
            }
            return None;
        }
        proof {
            assert(chars@.take(i + 1) =~= chars@.take(i as int).push(chars@[i as int]));
            assert(prefix@.take(i + 1) =~= prefix@.take(i as int).push(prefix@[i as int]));
        }
        i += 1;
    }
    proof {
        assert(prefix@.take(k as int) =~= prefix@);
    }
    parse_id_in(chars, k, n - 1)
}

/// The user that the mention `s` names: `s` is `<@`, or `<@!` for the
/// nickname form, then the user's identifier and `>`.
pub open spec fn username_id(s: Seq<char>) -> Option<u64> {
    if marker_id(s, seq!['<', '@', '!']) is Some {
        marker_id(s, seq!['<', '@', '!'])
    } else {
        marker_id(s, seq!['<', '@'])
    }
}

/// Reads a user mention, `<@ID>` or `<@!ID>`; `None` for any other text.
pub fn parse_username(text: &str) -> (id: Option<u64>)
    ensures
        id == username_id(text@),
{
    let chars = chars_of(text);
    let nick = ['<', '@', '!'];
    let user = ['<', '@'];
    assert(nick@ =~= seq!['<', '@', '!']);
    assert(user@ =~= seq!['<', '@']);
    match parse_marker(chars.as_slice(), nick.as_slice()) {
        Some(id) => Some(id),
        None => parse_marker(chars.as_slice(), user.as_slice()),
    }
}

/// The role that the mention `s` names: `s` is `<@&`, the role's identifier
/// and `>`.
pub open spec fn role_id(s: Seq<char>) -> Option<u64> {
    marker_id(s, seq!['<', '@', '&'])
}

/// Reads a role mention, `<@&ID>`; `None` for any other text.
pub fn parse_role(text: &str) -> (id: Option<u64>)
    ensures
        id == role_id(text@),
{
    let chars = chars_of(text);
    let role = ['<', '@', '&'];
    assert(role@ =~= seq!['<', '@', '&']);
    parse_marker(chars.as_slice(), role.as_slice())
}

/// The channel that the mention `s` names: `s` is `<#`, the channel's
/// identifier and `>`.
pub open spec fn channel_id(s: Seq<char>) -> Option<u64> {
    marker_id(s, seq!['<', '#'])
}

/// Reads a channel mention, `<#ID>`; `None` for any other text.
pub fn parse_channel(text: &str) -> (id: Option<u64>)
    ensures
        id == channel_id(text@),
{
    let chars = chars_of(text);
    let channel = ['<', '#'];
    assert(channel@ =~= seq!['<', '#']);
    parse_marker(chars.as_slice(), channel.as_slice())
}

/// How many characters stand in `body` before its first `:`; the length of
/// `body` where it holds none.
pub open spec fn name_len(body: Seq<char>) -> int
    decreases body.len(),
{
    if body.len() == 0 || body[0] == ':' {
        0
    } else {
        1 + name_len(body.drop_first())
    }
}

/// The name and identifier of the custom emoji that `s` refers to: `s` is
/// `<:`, a name of at least one character and without `:`, a `:`, the
/// emoji's identifier and `>`. The name is handed on as it is written.
pub open spec fn emoji_of(s: Seq<char>) -> Option<(Seq<char>, u64)> {
    match marker_body(s, seq!['<', ':']) {
        Some(body) => {
            let k = name_len(body);
            if 0 < k < body.len() {
                match decimal_id(body.skip(k + 1)) {
                    Some(id) => Some((body.take(k), id)),
                    None => None,
                }
            } else {
                None
            }
        },
        None => None,
    }
}

/// `name_len` is the one position that holds a `:` with none before it, or
/// the length where there is no `:` at all.
pub proof fn lemma_name_len(body: Seq<char>, k: int)
    requires
        0 <= k <= body.len(),
        forall|j: int| 0 <= j < k ==> body[j] != ':',
        k < body.len() ==> body[k] == ':',
    ensures
        name_len(body) == k,
    decreases body.len(),
{
    if k > 0 {
        let rest = body.drop_first();
        assert forall|j: int| 0 <= j < k - 1 implies rest[j] != ':' by {
            assert(rest[j] == body[j + 1]);
        }
        lemma_name_len(rest, k - 1);
    }
}

/// Reads a custom emoji reference, `<:NAME:ID>`, into its name and
/// identifier; `None` for any other text.
pub fn parse_emoji(text: &str) -> (emoji: Option<(String, u64)>)
    ensures
        match emoji {
            Some((name, id)) => emoji_of(text@) == Some((name@, id)),
            None => emoji_of(text@) is None,
        },
{
    let chars = chars_of(text);
    let n = chars.len();
    if n <= 2 || chars[0] != '<' || chars[1] != ':' || chars[n - 1] != '>' {
        proof {
            if n > 2 {
                assert(text@.take(2)[0] == text@[0]);
                assert(text@.take(2)[1] == text@[1]);
            }
        }
        return None;
    }
    let ghost body = text@.subrange(2, n - 1);
    proof {
        assert(text@.take(2) =~= seq!['<', ':']);
    }
    let mut name = String::new();
    let mut i: usize = 2;
    while i < n - 1 && chars[i] != ':'
        invariant
            2 <= i <= n - 1,
            n == chars@.len(),
            chars@ == text@,
            body == text@.subrange(2, n - 1),
            name@ == body.take(i - 2),
            forall|j: int| 0 <= j < i - 2 ==> body[j] != ':',
        decreases n - i,
    {
        name.push(chars[i]);
        proof {
            assert(body.take(i - 2).push(body[i - 2]) =~= body.take(i - 1));
        }
        i += 1;
    }
    proof {
        lemma_name_len(body, i - 2);
    }
    if i == 2 || i == n - 1 {
        return None;
    }
    proof {
        assert(body.skip(i - 1) =~= chars@.subrange(i + 1, n - 1));
    }
    match parse_id_in(chars.as_slice(), i + 1, n - 1) {
        Some(id) => Some((name, id)),
        None => None,
    }
}

/// Whether `s` is a marker of the given kind: `prefix`, an identifier's
/// numeral and `>`, with nothing before, between or after.
pub open spec fn is_marker(s: Seq<char>, prefix: Seq<char>) -> bool {
    exists|digits: Seq<char>| is_id_numeral(digits) && s == prefix + digits + seq!['>']
}

/// A marker put together from its parts is read back as the number that its
/// digits denote.
pub proof fn lemma_marker_accepted(prefix: Seq<char>, digits: Seq<char>)
    requires
        is_id_numeral(digits),
    ensures
        marker_id(prefix + digits + seq!['>'], prefix) == Some(decimal_value(digits) as u64),
{
    let s = prefix + digits + seq!['>'];
    assert(s.take(prefix.len() as int) =~= prefix);
    assert(s.subrange(prefix.len() as int, s.len() - 1) =~= digits);
}

/// An identifier comes out of exactly the texts that have the marker's
/// shape: any other text gives `None`.
pub proof fn lemma_marker_id_some_iff(s: Seq<char>, prefix: Seq<char>)
    ensures
        marker_id(s, prefix) is Some <==> is_marker(s, prefix),
{
    if marker_id(s, prefix) is Some {
        let digits = marker_body(s, prefix)->0;
        assert(s =~= prefix + digits + seq!['>']);
        assert(is_id_numeral(digits));
    }
    if is_marker(s, prefix) {
        let digits = choose|digits: Seq<char>|
            is_id_numeral(digits) && s == prefix + digits + seq!['>'];
        lemma_marker_accepted(prefix, digits);
    }
}

/// Both forms of a user mention, `<@D>` and `<@!D>`, give the number that
/// the digits `D` denote.
pub proof fn lemma_username_accepted(digits: Seq<char>)
    requires
        is_id_numeral(digits),
    ensures
        username_id(seq!['<', '@'] + digits + seq!['>']) == Some(decimal_value(digits) as u64),
        username_id(seq!['<', '@', '!'] + digits + seq!['>']) == Some(
            decimal_value(digits) as u64,
        ),
{
    let user = seq!['<', '@'];
    let nick = seq!['<', '@', '!'];
    lemma_marker_accepted(user, digits);
    lemma_marker_accepted(nick, digits);
    let plain = user + digits + seq!['>'];
    assert(marker_id(plain, nick) is None) by {
        assert(is_digit(digits[0]));
        assert(plain[2] == digits[0]);
        if plain.len() > 3 {
            assert(plain.take(3)[2] == plain[2]);
            assert(nick[2] == '!');
        }
    }
}

/// A user comes out of exactly the texts that are a user mention in one of
/// its two forms: any other text gives `None`.
pub proof fn lemma_username_some_iff(s: Seq<char>)
    ensures
        username_id(s) is Some <==> is_marker(s, seq!['<', '@']) || is_marker(
            s,
            seq!['<', '@', '!'],
        ),
{
    lemma_marker_id_some_iff(s, seq!['<', '@']);
    lemma_marker_id_some_iff(s, seq!['<', '@', '!']);
}

/// A role mention `<@&D>` gives the number that the digits `D` denote.
pub proof fn lemma_role_accepted(digits: Seq<char>)
    requires
        is_id_numeral(digits),
    ensures
        role_id(seq!['<', '@', '&'] + digits + seq!['>']) == Some(decimal_value(digits) as u64),
{
    lemma_marker_accepted(seq!['<', '@', '&'], digits);
}

/// A role comes out of exactly the texts that are a role mention.
pub proof fn lemma_role_some_iff(s: Seq<char>)
    ensures
        role_id(s) is Some <==> is_marker(s, seq!['<', '@', '&']),
{
    lemma_marker_id_some_iff(s, seq!['<', '@', '&']);
}

/// A channel mention `<#D>` gives the number that the digits `D` denote.
pub proof fn lemma_channel_accepted(digits: Seq<char>)
    requires
        is_id_numeral(digits),
    ensures
        channel_id(seq!['<', '#'] + digits + seq!['>']) == Some(decimal_value(digits) as u64),
{
    lemma_marker_accepted(seq!['<', '#'], digits);
}

/// A channel comes out of exactly the texts that are a channel mention.
pub proof fn lemma_channel_some_iff(s: Seq<char>)
    ensures
        channel_id(s) is Some <==> is_marker(s, seq!['<', '#']),
{
    lemma_marker_id_some_iff(s, seq!['<', '#']);
}

/// Whether `s` is the reference to a custom emoji with this name and these
/// digits: `<:`, a name of at least one character and without `:`, a `:`,
/// an identifier's numeral and `>`.
pub open spec fn is_emoji_marker(s: Seq<char>, name: Seq<char>, digits: Seq<char>) -> bool {
    &&& name.len() > 0
    &&& !name.contains(':')
    &&& is_id_numeral(digits)
    &&& s == seq!['<', ':'] + name + seq![':'] + digits + seq!['>']
}

/// An emoji reference put together from its parts is read back as the same
/// name, letter for letter, and the number that its digits denote.
pub proof fn lemma_emoji_accepted(s: Seq<char>, name: Seq<char>, digits: Seq<char>)
    requires
        is_emoji_marker(s, name, digits),
    ensures
        emoji_of(s) == Some((name, decimal_value(digits) as u64)),
{
    let open = seq!['<', ':'];
    let body = name + seq![':'] + digits;
    assert(s.take(2) =~= open);
    assert(s.subrange(2, s.len() - 1) =~= body);
    assert forall|j: int| 0 <= j < name.len() implies body[j] != ':' by {
        assert(name.contains(name[j]));
    }
    lemma_name_len(body, name.len() as int);
    assert(body.take(name.len() as int) =~= name);
    assert(body.skip(name.len() as int + 1) =~= digits);
}

/// A name and an identifier come out of nothing but an emoji reference, and
/// they are the name written in it and the number that its digits denote.
pub proof fn lemma_emoji_some_only_if(s: Seq<char>)
    requires
        emoji_of(s) is Some,
    ensures
        exists|name: Seq<char>, digits: Seq<char>| #[trigger]
            is_emoji_marker(s, name, digits) && emoji_of(s) == Some(
                (name, decimal_value(digits) as u64),
            ),
{
    let body = marker_body(s, seq!['<', ':'])->0;
    let k = name_len(body);
    let name = body.take(k);
    let digits = body.skip(k + 1);
    lemma_name_len_is_first(body);
    assert forall|j: int| 0 <= j < name.len() implies name[j] != ':' by {
        assert(name[j] == body[j]);
    }
    assert(s =~= seq!['<', ':'] + name + seq![':'] + digits + seq!['>']);
    assert(is_emoji_marker(s, name, digits));
    assert(emoji_of(s) == Some((name, decimal_value(digits) as u64)));
}

/// Before position `name_len` there is no `:`, and where `name_len` falls
/// inside the text a `:` stands there.
pub proof fn lemma_name_len_is_first(body: Seq<char>)
    ensures
        0 <= name_len(body) <= body.len(),
        forall|j: int| 0 <= j < name_len(body) ==> body[j] != ':',
        name_len(body) < body.len() ==> body[name_len(body)] == ':',
    decreases body.len(),
{
    if !(body.len() == 0 || body[0] == ':') {
        let rest = body.drop_first();
        lemma_name_len_is_first(rest);
        assert forall|j: int| 0 <= j < name_len(body) implies body[j] != ':' by {
            if j > 0 {
                assert(body[j] == rest[j - 1]);
            }
        }
        if name_len(body) < body.len() {
            assert(body[name_len(body)] == rest[name_len(rest)]);
        }
    }
}

/// A text that holds fewer than two `:` is no emoji reference.
pub proof fn lemma_emoji_needs_two_colons(s: Seq<char>)
    requires
        forall|i: int, j: int| 0 <= i < j < s.len() ==> !(s[i] == ':' && s[j] == ':'),
    ensures
        emoji_of(s) is None,
{
    if emoji_of(s) is Some {
        let body = marker_body(s, seq!['<', ':'])->0;
        let k = name_len(body);
        lemma_name_len_is_first(body);
        assert(s.take(2)[1] == s[1]);
        assert(s[1] == ':');
        assert(s[k + 2] == body[k]);
    }
}

} // verus!
