use elephantry_benchmark::decode::{Error, QueryResult, Status};
use elephantry_benchmark::entity::{Post, User};
use elephantry_benchmark::fixture::{FIXED_USER_ID, POSTS_PER_USER, RELATION_USERS};
use elephantry_benchmark::relation::{decode_relation, decode_relations, group_by_author, one_relation, posts_of};

fn user(id: u128) -> User {
    User { id, name: format!("User {}", id), hair_color: None, created_at: None, posts: vec![] }
}

fn post(id: u128, author: u128) -> Post {
    Post { id, title: format!("Post number {} for user {}", id, author), content: "abc".to_string(), author }
}

fn seeded(users: u128, per_user: u128) -> (Vec<User>, Vec<Post>) {
    let us: Vec<User> = (0..users).map(user).collect();
    let mut ps = Vec::new();
    for j in 0..per_user {
        for u in 0..users {
            ps.push(post(j * users + u, u));
        }
    }
    (us, ps)
}

#[test]
fn posts_of_keeps_only_the_author_in_order() {
    let ps = vec![post(1, 7), post(2, 8), post(3, 7)];
    let own = posts_of(7, &ps);
    assert_eq!(own.iter().map(|p| p.id).collect::<Vec<_>>(), vec![1, 3]);
    assert!(posts_of(9, &ps).is_empty());
}

#[test]
fn one_relation_returns_the_user_and_its_seeded_posts() {
    let (mut us, mut ps) = seeded(RELATION_USERS as u128, POSTS_PER_USER as u128);
    us[42].id = FIXED_USER_ID;
    for p in ps.iter_mut() {
        if p.author == 42 {
            p.author = FIXED_USER_ID;
        }
    }
    let (u, own) = one_relation(&us, &ps, FIXED_USER_ID).unwrap();
    assert_eq!(u.id, FIXED_USER_ID);
    assert_eq!(u.name, "User 42");
    assert_eq!(own.len(), POSTS_PER_USER);
    assert!(own.iter().all(|p| p.author == FIXED_USER_ID));
}

#[test]
fn one_relation_of_unknown_user_is_not_found() {
    let (us, ps) = seeded(3, 2);
    assert_eq!(one_relation(&us, &ps, 99).err(), Some(Error::NotFound));
}

#[test]
fn one_relation_of_user_without_posts_is_empty() {
    let (us, ps) = seeded(3, 0);
    let (u, own) = one_relation(&us, &ps, 1).unwrap();
    assert_eq!(u.id, 1);
    assert!(own.is_empty());
}

#[test]
fn all_relations_of_three_hundred_users_with_thirty_posts() {
    let (us, ps) = seeded(300, 30);
    let groups = group_by_author(&us, &ps);
    assert_eq!(groups.len(), 300);
    for (k, (u, own)) in groups.iter().enumerate() {
        assert_eq!(u.id, k as u128);
        assert_eq!(own.len(), 30);
    }
}

#[test]
fn all_relations_partition_the_posts() {
    let us: Vec<User> = vec![user(5), user(6), user(7)];
    let ps = vec![post(1, 6), post(2, 5), post(3, 6), post(4, 6)];
    let groups = group_by_author(&us, &ps);
    assert_eq!(groups.len(), 3);
    let total: usize = groups.iter().map(|(_, own)| own.len()).sum();
    assert_eq!(total, ps.len());
    for p in &ps {
        let holders = groups.iter().filter(|(_, own)| own.iter().any(|q| q.id == p.id)).count();
        assert_eq!(holders, 1);
    }
    assert_eq!(groups[1].1.iter().map(|p| p.id).collect::<Vec<_>>(), vec![1, 3, 4]);
    assert!(groups[2].1.is_empty());
}

fn aggregated(rows: Vec<(&str, &str, &str)>) -> QueryResult {
    QueryResult {
        status: Status::TuplesOk,
        error_message: None,
        rows: rows
            .into_iter()
            .map(|(id, name, posts)| vec![Some(id.to_string()), Some(name.to_string()), None, None, Some(posts.to_string())])
            .collect(),
    }
}

#[test]
fn decode_relation_pairs_the_user_with_its_titles() {
    let res = aggregated(vec![("85e11126-a41d-4dce-98f8-731a87685d2c", "User 0", "{\"Post number 0 for user 0\",\"Post number 1 for user 0\"}")]);
    let (u, titles) = decode_relation(&res).unwrap();
    assert_eq!(u.id, FIXED_USER_ID);
    assert_eq!(titles, vec!["Post number 0 for user 0".to_string(), "Post number 1 for user 0".to_string()]);
    assert_eq!(u.posts, titles);
}

#[test]
fn decode_relations_pairs_every_user() {
    let res = aggregated(vec![
        ("00000000000000000000000000000001", "User 1", "{a,b}"),
        ("00000000000000000000000000000002", "User 2", "{c}"),
    ]);
    let pairs = decode_relations(&res).unwrap();
    assert_eq!(pairs.len(), 2);
    assert_eq!(pairs[0].0.id, 1);
    assert_eq!(pairs[0].1, vec!["a".to_string(), "b".to_string()]);
    assert_eq!(pairs[1].1, vec!["c".to_string()]);
}

#[test]
fn decode_relation_of_empty_result_is_out_of_range() {
    let res = aggregated(vec![]);
    assert_eq!(decode_relation(&res).err(), Some(Error::OutOfRange { row: 0, rows: 0 }));
    assert!(decode_relations(&res).unwrap().is_empty());
}

#[test]
fn one_relation_with_equal_ids_takes_the_first_user() {
    let mut second = user(4);
    second.name = "Another".to_string();
    let us = vec![user(3), user(4), second];
    let ps = vec![post(1, 4)];
    let (u, own) = one_relation(&us, &ps, 4).unwrap();
    assert_eq!(u.name, "User 4");
    assert_eq!(own.len(), 1);
}
