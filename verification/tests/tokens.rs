use pal_occupy_bot::token::{
    encode_challenge, encode_judge, encode_list_points, encode_occupy, encode_show_challenge,
    encode_show_judge, encode_show_occupy, parse_token, parse_u32_digits, split_colons_str,
    u32_to_dec, Action, TokenError,
};

#[test]
fn numerals_encode_exactly() {
    assert_eq!(u32_to_dec(0), "0");
    assert_eq!(u32_to_dec(7), "7");
    assert_eq!(u32_to_dec(10), "10");
    assert_eq!(u32_to_dec(105), "105");
    assert_eq!(u32_to_dec(4294967295), "4294967295");
}

#[test]
fn digit_parsing_accepts_exactly_fitting_numerals() {
    assert_eq!(parse_u32_digits("0"), Some(0));
    assert_eq!(parse_u32_digits("42"), Some(42));
    assert_eq!(parse_u32_digits("042"), Some(42));
    assert_eq!(parse_u32_digits("0000000000000042"), Some(42));
    assert_eq!(parse_u32_digits("4294967295"), Some(4294967295));
    assert_eq!(parse_u32_digits(""), None);
    assert_eq!(parse_u32_digits("12a"), None);
    assert_eq!(parse_u32_digits("-5"), None);
    assert_eq!(parse_u32_digits("+5"), None);
    assert_eq!(parse_u32_digits("4294967296"), None);
    assert_eq!(parse_u32_digits("99999999999999999999"), None);
}

#[test]
fn splitting_keeps_every_field() {
    assert_eq!(split_colons_str("a:b::c"), vec!["a", "b", "", "c"]);
    assert_eq!(split_colons_str("abc"), vec!["abc"]);
    assert_eq!(split_colons_str(""), vec![""]);
    assert_eq!(split_colons_str(":"), vec!["", ""]);
    assert_eq!(split_colons_str("x:"), vec!["x", ""]);
}

#[test]
fn encoders_produce_the_documented_tokens() {
    assert_eq!(encode_list_points(3, 20), "list_points:3:20");
    assert_eq!(encode_show_occupy(0, 5), "show_occupy:0:5");
    assert_eq!(encode_show_challenge(2, 10), "show_challenge:2:10");
    assert_eq!(encode_show_judge(1, 7), "show_judge:1:7");
    assert_eq!(encode_occupy(14, 0, 20), "occupy:14:0:20");
    assert_eq!(encode_challenge(14, 0, 20), "challenge:14:0:20");
    assert_eq!(encode_judge(9, 1, 5), "judge:9:1:5");
}

#[test]
fn paging_tokens_round_trip() {
    for (i, s) in [(0, 1), (3, 20), (4294967295, 4294967295)] {
        let t = encode_list_points(i, s);
        assert_eq!(parse_token(&t), Ok(Action::ListPoints { page_index: i, page_size: s }));
    }
    let t = encode_show_occupy(2, 10);
    assert_eq!(parse_token(&t), Ok(Action::ShowOccupy { page_index: 2, page_size: 10 }));
    let t = encode_show_challenge(0, 20);
    assert_eq!(parse_token(&t), Ok(Action::ShowChallenge { page_index: 0, page_size: 20 }));
    let t = encode_show_judge(1, 20);
    assert_eq!(parse_token(&t), Ok(Action::ShowJudge { page_index: 1, page_size: 20 }));
    let t = encode_occupy(7, 0, 20);
    assert_eq!(
        parse_token(&t),
        Ok(Action::Occupy { ore_point_id: 7, page_index: 0, page_size: 20 })
    );
}

#[test]
fn bare_and_trailing_list_tokens_open_the_home_page() {
    assert_eq!(parse_token("list_points"), Ok(Action::ListPointsHome));
    assert_eq!(parse_token("list_points:"), Ok(Action::ListPointsHome));
}

#[test]
fn unknown_actions_are_rejected_not_crashed_on() {
    assert_eq!(parse_token("frobnicate:1:2"), Err(TokenError::UnknownCommand));
    assert_eq!(parse_token(""), Err(TokenError::UnknownCommand));
    assert_eq!(parse_token("0"), Err(TokenError::UnknownCommand));
    // Tokens of surfaces this router does not serve yet are unknown too.
    assert_eq!(parse_token("challenge:1:0:20"), Err(TokenError::UnknownCommand));
    assert_eq!(parse_token("judge:1:0:20"), Err(TokenError::UnknownCommand));
}

#[test]
fn malformed_arguments_are_surfaced() {
    assert_eq!(parse_token("list_points:1"), Err(TokenError::BadArguments));
    assert_eq!(parse_token("list_points:1:2:3"), Err(TokenError::BadArguments));
    assert_eq!(parse_token("list_points:a:2"), Err(TokenError::BadArguments));
    assert_eq!(parse_token("list_points:1:"), Err(TokenError::BadArguments));
    assert_eq!(parse_token("show_occupy:5"), Err(TokenError::BadArguments));
    assert_eq!(parse_token("show_judge:x:y"), Err(TokenError::BadArguments));
    assert_eq!(parse_token("occupy:1:2"), Err(TokenError::BadArguments));
    assert_eq!(parse_token("occupy:-1:0:20"), Err(TokenError::BadArguments));
    assert_eq!(parse_token("occupy:2147483648:0:20"), Err(TokenError::BadArguments));
    assert_eq!(parse_token("occupy:4294967296:0:20"), Err(TokenError::BadArguments));
}

#[test]
fn point_ids_parse_up_to_the_id_limit() {
    assert_eq!(
        parse_token("occupy:2147483647:0:20"),
        Ok(Action::Occupy { ore_point_id: 2147483647, page_index: 0, page_size: 20 })
    );
}

#[test]
fn tokens_stay_within_the_platform_id_limit() {
    // The opaque-identifier limit is about a hundred characters; the
    // longest token this grammar can emit stays well under it.
    let t = encode_occupy(2147483647, 4294967295, 4294967295);
    assert!(t.len() <= 100);
}
