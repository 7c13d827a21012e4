use users_api::filter::{Clause, Condition, Join};
use users_api::query::UserOrder;
use users_api::filter::Field;
use users_api::users::{NewUser, QueryInfo, Users};

fn rows(n: i32) -> Vec<Users> {
    (1..=n)
        .map(|i| Users {
            id: i,
            username: format!("user{}", i),
            displayname: format!("User {}", i),
            descriptions: String::new(),
        })
        .collect()
}

fn request(offset: Option<i64>, limit: Option<i64>, limit_full: Option<bool>) -> QueryInfo {
    QueryInfo { order: None, offset, filter: None, limit, limit_full }
}

fn ids(items: &[Users]) -> Vec<i32> {
    items.iter().map(|u| u.id).collect()
}

#[test]
fn page_offset_one_limit_four() {
    let req = request(Some(1), Some(4), None);
    assert!(req.page_is_well_formed(7));
    let page = Users::find_all(&req, rows(7));
    assert_eq!(ids(&page.items), vec![2, 3, 4, 5]);
    assert_eq!(page.total_count, 7);
    assert!(page.has_more);
    assert_eq!(page.limit, Some(4));
}

#[test]
fn page_without_limit_is_everything() {
    let page = Users::find_all(&request(None, None, None), rows(3));
    assert_eq!(ids(&page.items), vec![1, 2, 3]);
    assert!(!page.has_more);
    assert_eq!(page.limit, None);
    let page = Users::find_all(&request(Some(2), None, None), rows(3));
    assert_eq!(ids(&page.items), vec![1, 2, 3]);
}

#[test]
fn page_running_past_the_end_is_cut() {
    let page = Users::find_all(&request(Some(5), Some(4), None), rows(7));
    assert_eq!(ids(&page.items), vec![6, 7]);
    assert!(!page.has_more);
}

#[test]
fn page_filled_up_to_its_limit() {
    let page = Users::find_all(&request(Some(5), Some(4), Some(false)), rows(7));
    assert_eq!(ids(&page.items), vec![4, 5, 6, 7]);
    let page = Users::find_all(&request(Some(7), Some(2), Some(true)), rows(7));
    assert_eq!(ids(&page.items), vec![6, 7]);
}

#[test]
fn page_ending_at_the_last_row_has_no_more() {
    let page = Users::find_all(&request(Some(3), Some(4), None), rows(7));
    assert_eq!(ids(&page.items), vec![4, 5, 6, 7]);
    assert!(!page.has_more);
}

#[test]
fn page_with_zero_limit() {
    let page = Users::find_all(&request(Some(0), Some(0), None), rows(3));
    assert!(page.items.is_empty());
    assert!(!page.has_more);
}

#[test]
fn consecutive_pages_join() {
    let a = Users::find_all(&request(Some(1), Some(2), None), rows(6));
    let b = Users::find_all(&request(Some(3), Some(2), None), rows(6));
    let both = Users::find_all(&request(Some(1), Some(4), None), rows(6));
    let mut joined = ids(&a.items);
    joined.extend(ids(&b.items));
    assert_eq!(joined, ids(&both.items));
}

#[test]
fn page_request_checks() {
    assert!(!request(None, Some(3), None).page_is_well_formed(5));
    assert!(!request(Some(-1), Some(3), None).page_is_well_formed(5));
    assert!(!request(Some(1), Some(-3), None).page_is_well_formed(5));
    assert!(!request(Some(6), Some(1), None).page_is_well_formed(5));
    assert!(!request(Some(1), Some(6), Some(true)).page_is_well_formed(5));
    assert!(!request(Some(1), Some(i64::MAX), None).page_is_well_formed(5));
    assert!(request(Some(5), Some(0), None).page_is_well_formed(5));
    assert!(request(Some(1), Some(6), None).page_is_well_formed(5));
    assert!(request(Some(-4), None, None).page_is_well_formed(5));
    assert!(request(None, None, Some(true)).page_is_well_formed(0));
}

#[test]
fn listing_query_from_parameters() {
    let req = QueryInfo {
        order: Some("username.desc".to_string()),
        offset: None,
        filter: Some("id = 4 or username = ann".to_string()),
        limit: None,
        limit_full: None,
    };
    assert!(req.filter_is_well_formed());
    let q = Users::find_all_query(&req);
    assert_eq!(
        q.clauses,
        vec![
            Clause { join: Join::And, condition: Condition::IdEquals(4) },
            Clause { join: Join::Or, condition: Condition::UsernameEquals("ann".to_string()) },
        ]
    );
    assert_eq!(q.order, Some(UserOrder { field: Field::Username, descending: true }));
}

#[test]
fn listing_query_without_parameters() {
    let req = QueryInfo { order: Some("bogus".to_string()), offset: None, filter: None, limit: None, limit_full: None };
    assert!(req.filter_is_well_formed());
    let q = Users::find_all_query(&req);
    assert!(q.clauses.is_empty());
    assert_eq!(q.order, None);
}

#[test]
fn listing_filter_check() {
    let req = QueryInfo { order: None, offset: None, filter: Some("id = x".to_string()), limit: None, limit_full: None };
    assert!(!req.filter_is_well_formed());
}

#[test]
fn new_user_keeps_fields() {
    let u = NewUser::from(NewUser {
        username: "a".to_string(),
        displayname: "b".to_string(),
        descriptions: "c".to_string(),
    });
    assert_eq!((u.username.as_str(), u.displayname.as_str(), u.descriptions.as_str()), ("a", "b", "c"));
}
