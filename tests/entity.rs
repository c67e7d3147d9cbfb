use elephantry_benchmark::decode::{decode_all, QueryResult, Status};
use elephantry_benchmark::entity::{new_users, NewPost, NewUser};
use elephantry_benchmark::fixture::{CONTENT_LEN, FIXED_USER_ID};
use elephantry_benchmark::sql::{insert_users_statement, setup_script};

#[test]
fn synthetic_user_fields_carry_the_index() {
    let u = NewUser::new(0);
    assert_eq!(u.name, "User 0");
    assert_eq!(u.hair_color, Some("hair color 0".to_string()));
    let u = NewUser::new(1234);
    assert_eq!(u.name, "User 1234");
    assert_eq!(u.hair_color, Some("hair color 1234".to_string()));
}

#[test]
fn inserting_n_users_writes_n_distinct_rows() {
    for n in [0usize, 1, 25, 300] {
        let batch = new_users(n);
        assert_eq!(batch.len(), n);
        let mut names: Vec<_> = batch.iter().map(|u| u.name.clone()).collect();
        names.sort();
        names.dedup();
        assert_eq!(names.len(), n);
    }
    let batch = new_users(3);
    assert_eq!(batch[2].name, "User 2");
}

#[test]
fn boundary_setup_zero_then_one_insert_then_fetch_all() {
    assert!(setup_script(0, 0).contains("generate_series(0, 0 - 1) AS i"));
    let batch = new_users(1);
    assert_eq!(
        insert_users_statement(&batch).unwrap(),
        "INSERT INTO users (name, hair_color) VALUES ('User 0', 'hair color 0')"
    );
    let fetched = QueryResult {
        status: Status::TuplesOk,
        error_message: None,
        rows: vec![vec![
            Some("85e11126-a41d-4dce-98f8-731a87685d2c".to_string()),
            Some(batch[0].name.clone()),
            batch[0].hair_color.clone(),
            Some("2024-05-06 07:08:09".to_string()),
        ]],
    };
    let users = decode_all(&fetched).unwrap();
    assert_eq!(users.len(), 1);
    assert_eq!(users[0].name, "User 0");
    assert_eq!(users[0].id, FIXED_USER_ID);
}

#[test]
fn new_post_fields() {
    let p = NewPost::new(3, 12, FIXED_USER_ID);
    assert_eq!(p.title, "Post number 3 for user 12");
    assert_eq!(p.content.len(), CONTENT_LEN);
    assert!(p.content.starts_with("abcabca"));
    assert!(p.content.ends_with("ab"));
    assert_eq!(p.author, FIXED_USER_ID);
}
