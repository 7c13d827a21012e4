use users_api::filter::{like_pattern_of, parse_filter, Clause, Condition, Join};
use users_api::query::{parse_order, UserOrder};
use users_api::filter::Field;
use users_api::text::split_words;

fn and(condition: Condition) -> Clause {
    Clause { join: Join::And, condition }
}

fn or(condition: Condition) -> Clause {
    Clause { join: Join::Or, condition }
}

fn s(text: &str) -> String {
    text.to_string()
}

#[test]
fn filter_on_id() {
    assert_eq!(parse_filter("id = 5"), Some(vec![and(Condition::IdEquals(5))]));
}

#[test]
fn filter_on_negative_id() {
    assert_eq!(parse_filter("id = -12"), Some(vec![and(Condition::IdEquals(-12))]));
}

#[test]
fn filter_empty_and_blank() {
    assert_eq!(parse_filter(""), Some(vec![]));
    assert_eq!(parse_filter("  \t\n "), Some(vec![]));
}

#[test]
fn filter_skips_unknown_words() {
    assert_eq!(parse_filter("foo bar baz"), Some(vec![]));
}

#[test]
fn filter_username_and_displayname() {
    assert_eq!(
        parse_filter("username = bob and displayname = Bobby"),
        Some(vec![
            and(Condition::UsernameEquals(s("bob"))),
            and(Condition::DisplaynameEquals(s("Bobby"))),
        ])
    );
}

#[test]
fn filter_or_joins() {
    assert_eq!(
        parse_filter("username = bob or id = 3 or displayname = Al"),
        Some(vec![
            and(Condition::UsernameEquals(s("bob"))),
            or(Condition::IdEquals(3)),
            or(Condition::DisplaynameEquals(s("Al"))),
        ])
    );
}

#[test]
fn filter_leading_descriptions_uses_third_word() {
    assert_eq!(
        parse_filter("descriptions like cat"),
        Some(vec![and(Condition::DescriptionsLike(s("%cat%")))])
    );
    assert_eq!(
        parse_filter("x y descriptions"),
        Some(vec![and(Condition::DescriptionsLike(s("%descriptions%")))])
    );
}

#[test]
fn filter_descriptions_after_or_and_and() {
    assert_eq!(
        parse_filter("id = 1 or descriptions like dog"),
        Some(vec![and(Condition::IdEquals(1)), or(Condition::DescriptionsLike(s("%dog%")))])
    );
    assert_eq!(
        parse_filter("id = 1 or descriptions= is dog"),
        Some(vec![and(Condition::IdEquals(1)), or(Condition::DescriptionsEquals(s("dog")))])
    );
    assert_eq!(
        parse_filter("id = 1 and descriptions like dog"),
        Some(vec![and(Condition::IdEquals(1)), and(Condition::DescriptionsLike(s("%dog%")))])
    );
}

#[test]
fn filter_like_resumes_at_value_word() {
    // After a `descriptions` condition behind `or`, reading goes on at the
    // value word, which here names no column and is skipped.
    assert_eq!(
        parse_filter("or descriptions like dog username = x"),
        Some(vec![
            or(Condition::DescriptionsLike(s("%dog%"))),
            and(Condition::UsernameEquals(s("x"))),
        ])
    );
}

#[test]
fn filter_word_holding_id_names_id() {
    assert_eq!(parse_filter("userid = 7"), Some(vec![and(Condition::IdEquals(7))]));
}

#[test]
fn filter_joining_word_without_column() {
    assert_eq!(parse_filter("or nothing here"), Some(vec![]));
}

#[test]
fn filter_malformed() {
    assert_eq!(parse_filter("id = abc"), None);
    assert_eq!(parse_filter("id ="), None);
    assert_eq!(parse_filter("username"), None);
    assert_eq!(parse_filter("and"), None);
    assert_eq!(parse_filter("id = 1 or"), None);
    assert_eq!(parse_filter("descriptions x"), None);
    assert_eq!(parse_filter("id = 2147483648"), None);
}

#[test]
fn like_pattern_wraps_value() {
    assert_eq!(like_pattern_of("a b"), "%a b%");
}

#[test]
fn order_names() {
    assert_eq!(parse_order("id"), Some(UserOrder { field: Field::Id, descending: false }));
    assert_eq!(
        parse_order("descriptions.desc"),
        Some(UserOrder { field: Field::Descriptions, descending: true })
    );
    assert_eq!(
        parse_order("username.desc"),
        Some(UserOrder { field: Field::Username, descending: true })
    );
    assert_eq!(parse_order("displayname"), Some(UserOrder { field: Field::Displayname, descending: false }));
    assert_eq!(parse_order("name"), None);
    assert_eq!(parse_order("id.asc"), None);
    assert_eq!(parse_order(""), None);
}

#[test]
fn words_split_on_unicode_white_space() {
    assert_eq!(
        split_words(" a\u{3000}bc\u{a0}\td  "),
        vec!["a".to_string(), "bc".to_string(), "d".to_string()]
    );
    assert!(split_words("").is_empty());
}

#[test]
fn id_values_read_as_i32() {
    let id = |n: i32| Some(vec![and(Condition::IdEquals(n))]);
    assert_eq!(parse_filter("id = +5"), id(5));
    assert_eq!(parse_filter("id = -0"), id(0));
    assert_eq!(parse_filter("id = -2147483648"), id(i32::MIN));
    assert_eq!(parse_filter("id = 2147483647"), id(i32::MAX));
    assert_eq!(parse_filter("id = -"), None);
    assert_eq!(parse_filter("id = 1a"), None);
    assert_eq!(parse_filter("id = 0x10"), None);
}
