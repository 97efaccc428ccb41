use serenity_utils::{parse_channel, parse_emoji, parse_id, parse_role, parse_username};

#[test]
fn id_reads_plain_decimal_numerals() {
    assert_eq!(parse_id("0"), Some(0));
    assert_eq!(parse_id("7"), Some(7));
    assert_eq!(parse_id("12345"), Some(12_345));
    assert_eq!(parse_id("302516740095606785"), Some(302_516_740_095_606_785));
}

#[test]
fn id_keeps_leading_zeros_out_of_the_value() {
    assert_eq!(parse_id("0012"), Some(12));
    assert_eq!(parse_id("000000000000000000000000000001"), Some(1));
}

#[test]
fn id_accepts_the_largest_64_bit_value_and_nothing_above() {
    assert_eq!(parse_id("18446744073709551615"), Some(u64::MAX));
    assert_eq!(parse_id("18446744073709551616"), None);
    assert_eq!(parse_id("18446744073709551620"), None);
    assert_eq!(parse_id("99999999999999999999"), None);
    assert_eq!(parse_id("184467440737095516150"), None);
}

#[test]
fn id_rejects_what_is_not_a_run_of_digits() {
    assert_eq!(parse_id(""), None);
    assert_eq!(parse_id("+1"), None);
    assert_eq!(parse_id("-1"), None);
    assert_eq!(parse_id("12a"), None);
    assert_eq!(parse_id("a12"), None);
    assert_eq!(parse_id("1 2"), None);
    assert_eq!(parse_id(" 12"), None);
    assert_eq!(parse_id("1_000"), None);
    assert_eq!(parse_id("\u{ff11}\u{ff12}"), None);
    assert_eq!(parse_id("\u{0661}"), None);
}

#[test]
fn username_accepts_both_forms_only() {
    assert_eq!(parse_username("<@1>"), Some(1));
    assert_eq!(parse_username("<@!1>"), Some(1));
    assert_eq!(parse_username("<@18446744073709551615>"), Some(u64::MAX));
    assert_eq!(parse_username("<@!18446744073709551615>"), Some(u64::MAX));
    assert_eq!(parse_username("<@007>"), Some(7));
}

#[test]
fn username_rejects_other_shapes() {
    assert_eq!(parse_username(""), None);
    assert_eq!(parse_username("<"), None);
    assert_eq!(parse_username("<@"), None);
    assert_eq!(parse_username("<@>"), None);
    assert_eq!(parse_username("<@!>"), None);
    assert_eq!(parse_username("<@12345"), None);
    assert_eq!(parse_username("@12345>"), None);
    assert_eq!(parse_username("12345"), None);
    assert_eq!(parse_username(" <@12345>"), None);
    assert_eq!(parse_username("<@12345> "), None);
    assert_eq!(parse_username("hello <@12345>"), None);
    assert_eq!(parse_username("<@12345>>"), None);
    assert_eq!(parse_username("<@12a45>"), None);
    assert_eq!(parse_username("<@!!12345>"), None);
    assert_eq!(parse_username("<@&12345>"), None);
    assert_eq!(parse_username("<#12345>"), None);
    assert_eq!(parse_username("[@12345]"), None);
    assert_eq!(parse_username("<@+12345>"), None);
    assert_eq!(parse_username("<@-1>"), None);
}

#[test]
fn username_rejects_an_identifier_beyond_64_bits() {
    assert_eq!(parse_username("<@18446744073709551616>"), None);
    assert_eq!(parse_username("<@!18446744073709551616>"), None);
    assert_eq!(parse_username("<@123456789012345678901234567890>"), None);
}

#[test]
fn role_accepts_its_form_only() {
    assert_eq!(parse_role("<@&1>"), Some(1));
    assert_eq!(parse_role("<@&18446744073709551615>"), Some(u64::MAX));
    assert_eq!(parse_role(""), None);
    assert_eq!(parse_role("<@&>"), None);
    assert_eq!(parse_role("<@12345>"), None);
    assert_eq!(parse_role("<@!12345>"), None);
    assert_eq!(parse_role("<#12345>"), None);
    assert_eq!(parse_role("<@&12345"), None);
    assert_eq!(parse_role("<@&12345>x"), None);
    assert_eq!(parse_role("x<@&12345>"), None);
    assert_eq!(parse_role("<@&12x45>"), None);
    assert_eq!(parse_role("<@&18446744073709551616>"), None);
}

#[test]
fn channel_accepts_its_form_only() {
    assert_eq!(parse_channel("<#1>"), Some(1));
    assert_eq!(parse_channel("<#18446744073709551615>"), Some(u64::MAX));
    assert_eq!(parse_channel(""), None);
    assert_eq!(parse_channel("<#>"), None);
    assert_eq!(parse_channel("<@12345>"), None);
    assert_eq!(parse_channel("#12345"), None);
    assert_eq!(parse_channel("<#12345"), None);
    assert_eq!(parse_channel("<#12345>x"), None);
    assert_eq!(parse_channel("x<#12345>"), None);
    assert_eq!(parse_channel("<#general>"), None);
    assert_eq!(parse_channel("<#18446744073709551616>"), None);
}

#[test]
fn emoji_keeps_the_name_as_written() {
    assert_eq!(
        parse_emoji("<:smugAnimeFace:302516740095606785>"),
        Some(("smugAnimeFace".to_owned(), 302_516_740_095_606_785))
    );
    assert_eq!(parse_emoji("<:a:0>"), Some(("a".to_owned(), 0)));
    assert_eq!(parse_emoji("<:two words:5>"), Some(("two words".to_owned(), 5)));
    assert_eq!(parse_emoji("<:caf\u{e9}_\u{1f600}:9>"), Some(("caf\u{e9}_\u{1f600}".to_owned(), 9)));
    assert_eq!(parse_emoji("<:<>:18446744073709551615>"), Some(("<>".to_owned(), u64::MAX)));
}

#[test]
fn emoji_without_two_separators_is_absent() {
    assert_eq!(parse_emoji("<name12345>"), None);
    assert_eq!(parse_emoji("<:name12345>"), None);
    assert_eq!(parse_emoji("<name:12345>"), None);
    assert_eq!(parse_emoji("<:>"), None);
    assert_eq!(parse_emoji(""), None);
}

#[test]
fn emoji_rejects_other_shapes() {
    assert_eq!(parse_emoji("<::12345>"), None);
    assert_eq!(parse_emoji("<:name:>"), None);
    assert_eq!(parse_emoji("<:name:12345"), None);
    assert_eq!(parse_emoji(":name:12345>"), None);
    assert_eq!(parse_emoji("<:name:12345>>"), None);
    assert_eq!(parse_emoji(" <:name:12345>"), None);
    assert_eq!(parse_emoji("<:name:12345> "), None);
    assert_eq!(parse_emoji("<:name:12a45>"), None);
    assert_eq!(parse_emoji("<:na:me:12345>"), None);
    assert_eq!(parse_emoji("<:name:123:45>"), None);
    assert_eq!(parse_emoji("<:name:18446744073709551616>"), None);
    assert_eq!(parse_emoji("<@name:12345>"), None);
}

#[test]
fn parsers_answer_the_same_when_asked_again() {
    let user = String::from("<@!12345>");
    assert_eq!(parse_username(&user), parse_username(&user));
    assert_eq!(user, "<@!12345>");
    let emoji = String::from("<:name:12345>");
    assert_eq!(parse_emoji(&emoji), parse_emoji(&emoji));
    assert_eq!(emoji, "<:name:12345>");
    assert_eq!(parse_role("<@&1>"), parse_role("<@&1>"));
    assert_eq!(parse_channel("<#x>"), parse_channel("<#x>"));
}
