use elephantry_benchmark::decode::{
    decode_all, decode_first, decode_last, decode_posts, decode_user, to_result, Error, QueryResult, Status,
};
use elephantry_benchmark::entity::Timestamp;
use elephantry_benchmark::fixture::{FIXED_USER_ID, LAST_ROW_OFFSET};

const FIXED_TEXT: &str = "85e11126-a41d-4dce-98f8-731a87685d2c";

fn cells(values: &[Option<&str>]) -> Vec<Option<String>> {
    values.iter().map(|v| v.map(|s| s.to_string())).collect()
}

fn tuples(rows: Vec<Vec<Option<String>>>) -> QueryResult {
    QueryResult { status: Status::TuplesOk, error_message: None, rows }
}

fn user_row(i: u128) -> Vec<Option<String>> {
    let id = format!("{:032x}", i);
    cells(&[Some(id.as_str()), Some(format!("User {}", i).as_str()), Some("hair color"), None])
}

#[test]
fn to_result_passes_successful_results() {
    let res = tuples(vec![]);
    assert!(to_result(&res).is_ok());
    let res = QueryResult { status: Status::CommandOk, error_message: None, rows: vec![] };
    assert!(to_result(&res).is_ok());
}

#[test]
fn to_result_reports_backend_message() {
    let res = QueryResult {
        status: Status::FatalError,
        error_message: Some("relation \"users\" does not exist".to_string()),
        rows: vec![],
    };
    assert_eq!(to_result(&res).err(), Some(Error::Backend("relation \"users\" does not exist".to_string())));
}

#[test]
fn to_result_reports_unknown_failure() {
    for status in [Status::BadResponse, Status::NonFatalError, Status::FatalError] {
        let res = QueryResult { status, error_message: None, rows: vec![] };
        assert_eq!(to_result(&res).err(), Some(Error::Unknown));
    }
}

#[test]
fn decode_user_reads_every_column() {
    let res = tuples(vec![cells(&[Some(FIXED_TEXT), Some("User 0"), Some("hair color 0"), Some("2020-01-02 03:04:05")])]);
    let user = decode_user(&res, 0).unwrap();
    assert_eq!(user.id, FIXED_USER_ID);
    assert_eq!(user.name, "User 0");
    assert_eq!(user.hair_color, Some("hair color 0".to_string()));
    assert_eq!(user.created_at, Some(Timestamp { seconds: 1577934245 }));
    assert!(user.posts.is_empty());
}

#[test]
fn decode_user_accepts_simple_uuid_form() {
    let res = tuples(vec![cells(&[Some("85e11126a41d4dce98f8731a87685d2c"), Some("User 0"), None, None])]);
    assert_eq!(decode_user(&res, 0).unwrap().id, FIXED_USER_ID);
}

#[test]
fn decode_user_keeps_nulls_as_none() {
    let res = tuples(vec![cells(&[Some(FIXED_TEXT), Some("User 0"), None, None])]);
    let user = decode_user(&res, 0).unwrap();
    assert_eq!(user.hair_color, None);
    assert_eq!(user.created_at, None);
}

#[test]
fn decode_user_drops_unreadable_timestamp() {
    let res = tuples(vec![cells(&[Some(FIXED_TEXT), Some("User 0"), None, Some("2020-01-02 03:04:05.123456")])]);
    assert_eq!(decode_user(&res, 0).unwrap().created_at, None);
    let res = tuples(vec![cells(&[Some(FIXED_TEXT), Some("User 0"), None, Some("yesterday")])]);
    assert_eq!(decode_user(&res, 0).unwrap().created_at, None);
}

#[test]
fn decode_user_reads_aggregated_titles() {
    let res = tuples(vec![cells(&[
        Some(FIXED_TEXT),
        Some("User 0"),
        None,
        None,
        Some("{\"Post number 0 for user 0\",\"Post number 1 for user 0\"}"),
    ])]);
    let user = decode_user(&res, 0).unwrap();
    assert_eq!(user.posts, vec!["Post number 0 for user 0".to_string(), "Post number 1 for user 0".to_string()]);
}

#[test]
fn decode_user_reads_null_titles_as_one_empty_title() {
    let res = tuples(vec![cells(&[Some(FIXED_TEXT), Some("User 0"), None, None, None])]);
    assert_eq!(decode_user(&res, 0).unwrap().posts, vec![String::new()]);
}

#[test]
fn decode_user_reports_missing_id() {
    let res = tuples(vec![cells(&[None, Some("User 0"), None, None])]);
    assert_eq!(decode_user(&res, 0).err(), Some(Error::MissingValue { row: 0, column: 0 }));
    let res = tuples(vec![vec![]]);
    assert_eq!(decode_user(&res, 0).err(), Some(Error::MissingValue { row: 0, column: 0 }));
}

#[test]
fn decode_user_reports_invalid_id() {
    let res = tuples(vec![cells(&[Some("42"), Some("User 0"), None, None])]);
    assert_eq!(decode_user(&res, 0).err(), Some(Error::InvalidId { row: 0, column: 0 }));
}

#[test]
fn decode_user_reports_missing_name() {
    let res = tuples(vec![cells(&[Some(FIXED_TEXT), None, None, None])]);
    assert_eq!(decode_user(&res, 0).err(), Some(Error::MissingValue { row: 0, column: 1 }));
}

#[test]
fn decode_user_reports_out_of_range() {
    let res = tuples(vec![user_row(1)]);
    assert_eq!(decode_user(&res, 1).err(), Some(Error::OutOfRange { row: 1, rows: 1 }));
}

#[test]
fn decode_user_reports_failed_status_first() {
    let res = QueryResult { status: Status::FatalError, error_message: Some("boom".to_string()), rows: vec![user_row(1)] };
    assert_eq!(decode_user(&res, 0).err(), Some(Error::Backend("boom".to_string())));
}

#[test]
fn decode_all_gives_one_user_per_row() {
    let res = tuples((0..5).map(user_row).collect());
    let users = decode_all(&res).unwrap();
    assert_eq!(users.len(), 5);
    for (i, u) in users.iter().enumerate() {
        assert_eq!(u.id, i as u128);
        assert_eq!(u.name, format!("User {}", i));
    }
}

#[test]
fn decode_all_of_empty_result_is_empty() {
    assert!(decode_all(&tuples(vec![])).unwrap().is_empty());
}

#[test]
fn decode_all_stops_at_first_bad_row() {
    let mut rows: Vec<_> = (0..4).map(user_row).collect();
    rows[2][1] = None;
    rows[3][0] = Some("bad".to_string());
    assert_eq!(decode_all(&tuples(rows)).err(), Some(Error::MissingValue { row: 2, column: 1 }));
}

#[test]
fn decode_all_reports_failed_status() {
    let res = QueryResult { status: Status::BadResponse, error_message: None, rows: vec![] };
    assert_eq!(decode_all(&res).err(), Some(Error::Unknown));
}

#[test]
fn first_user_is_one_of_all_users() {
    let res = tuples((0..3).map(user_row).collect());
    let all = decode_all(&res).unwrap();
    let first = decode_first(&res).unwrap();
    assert!(all.iter().any(|u| u.id == first.id && u.name == first.name));
    assert_eq!(first.id, 0);
}

#[test]
fn first_user_of_empty_result_is_out_of_range() {
    assert_eq!(decode_first(&tuples(vec![])).err(), Some(Error::OutOfRange { row: 0, rows: 0 }));
}

#[test]
fn last_user_of_ten_thousand_rows_is_the_last_row() {
    let res = tuples((0..10_000).map(user_row).collect());
    let all = decode_all(&res).unwrap();
    let last = decode_last(&res).unwrap();
    assert_eq!(last.id, 9_999);
    assert_eq!(last.name, all[all.len() - 1].name);
    assert_eq!(LAST_ROW_OFFSET, 9_999);
}

#[test]
fn last_user_beyond_ten_thousand_rows_is_at_the_offset() {
    let res = tuples((0..10_001).map(user_row).collect());
    assert_eq!(decode_last(&res).unwrap().id, 9_999);
}

#[test]
fn last_user_of_fewer_rows_is_out_of_range() {
    let res = tuples((0..9_999).map(user_row).collect());
    assert_eq!(decode_last(&res).err(), Some(Error::OutOfRange { row: 9_999, rows: 9_999 }));
}

#[test]
fn decode_posts_reads_every_column() {
    let res = tuples(vec![cells(&[
        Some("00000000-0000-0000-0000-000000000007"),
        Some("Post number 0 for user 0"),
        Some("abc"),
        Some(FIXED_TEXT),
    ])]);
    let posts = decode_posts(&res).unwrap();
    assert_eq!(posts.len(), 1);
    assert_eq!(posts[0].id, 7);
    assert_eq!(posts[0].title, "Post number 0 for user 0");
    assert_eq!(posts[0].content, "abc");
    assert_eq!(posts[0].author, FIXED_USER_ID);
}

#[test]
fn decode_posts_reports_bad_author() {
    let res = tuples(vec![cells(&[Some(FIXED_TEXT), Some("t"), Some("c"), Some("nobody")])]);
    assert_eq!(decode_posts(&res).err(), Some(Error::InvalidId { row: 0, column: 3 }));
    let res = tuples(vec![cells(&[Some(FIXED_TEXT), Some("t"), None, Some(FIXED_TEXT)])]);
    assert_eq!(decode_posts(&res).err(), Some(Error::MissingValue { row: 0, column: 2 }));
}
