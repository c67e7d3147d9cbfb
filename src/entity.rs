//! The rows of the two tables: users, and the posts that they author.
use vstd::prelude::*;

use crate::external::push_char;
use crate::fixture::CONTENT_LEN;
use crate::text::{decimal, lemma_decimal_injective, push_decimal};

verus! {

/// A point in time without time zone, as seconds since 1970-01-01 00:00:00.
#[derive(Clone, Copy, Debug, PartialEq, Eq, Structural)]
pub struct Timestamp {
    pub seconds: i64,
}

/// A stored row of `users`, with the titles of its posts where the query
/// aggregated them.
#[derive(Clone, Debug)]
pub struct User {
    pub id: u128,
    pub name: String,
    pub hair_color: Option<String>,
    pub created_at: Option<Timestamp>,
    pub posts: Vec<String>,
}

/// What a [`User`] holds, as mathematical values.
pub struct UserView {
    pub id: u128,
    pub name: Seq<char>,
    pub hair_color: Option<Seq<char>>,
    pub created_at: Option<Timestamp>,
    pub posts: Seq<Seq<char>>,
}

impl View for User {
    type V = UserView;

    open spec fn view(&self) -> UserView {
        UserView {
            id: self.id,
            name: self.name@,
            hair_color: self.hair_color.deep_view(),
            created_at: self.created_at,
            posts: self.posts.deep_view(),
        }
    }
}

impl User {
    /// A copy of this user.
    pub fn duplicate(&self) -> (r: User)
        ensures
            r@ == self@,
    {
        let posts = self.posts.clone();
        assert(posts.deep_view() =~= self.posts.deep_view());
        User {
            id: self.id,
            name: self.name.clone(),
            hair_color: self.hair_color.clone(),
            created_at: self.created_at,
            posts,
        }
    }
}

/// A stored row of `posts`; `author` is the id of the user who wrote it.
#[derive(Clone, Debug)]
pub struct Post {
    pub id: u128,
    pub title: String,
    pub content: String,
    pub author: u128,
}

/// What a [`Post`] holds, as mathematical values.
pub struct PostView {
    pub id: u128,
    pub title: Seq<char>,
    pub content: Seq<char>,
    pub author: u128,
}

impl View for Post {
    type V = PostView;

    open spec fn view(&self) -> PostView {
        PostView { id: self.id, title: self.title@, content: self.content@, author: self.author }
    }
}

impl Post {
    /// A copy of this post.
    pub fn duplicate(&self) -> (r: Post)
        ensures
            r@ == self@,
    {
        Post {
            id: self.id,
            title: self.title.clone(),
            content: self.content.clone(),
            author: self.author,
        }
    }
}

/// The views of a sequence of users.
pub open spec fn user_views(s: Seq<User>) -> Seq<UserView> {
    s.map_values(|u: User| u@)
}

/// The views of a sequence of posts.
pub open spec fn post_views(s: Seq<Post>) -> Seq<PostView> {
    s.map_values(|p: Post| p@)
}

/// The name of the `i`-th synthetic user: `User {i}`.
pub open spec fn user_name(i: nat) -> Seq<char> {
    "User "@ + decimal(i)
}

/// The hair color of the `i`-th synthetic user: `hair color {i}`.
pub open spec fn user_hair_color(i: nat) -> Seq<char> {
    "hair color "@ + decimal(i)
}

/// A row to insert into `users`; the server assigns its id and creation time.
#[derive(Clone, Debug)]
pub struct NewUser {
    pub name: String,
    pub hair_color: Option<String>,
}

impl NewUser {
    /// The `i`-th synthetic user: named `User {i}`, with hair color `hair color {i}`.
    pub fn new(i: u64) -> (r: NewUser)
        ensures
            r.name@ == user_name(i as nat),
            r.hair_color matches Some(h) && h@ == user_hair_color(i as nat),
    {
        let mut name = String::from_str("User ");
        push_decimal(&mut name, i);
        let mut hair_color = String::from_str("hair color ");
        push_decimal(&mut hair_color, i);
        NewUser { name, hair_color: Some(hair_color) }
    }
}

/// Whether `u` is the `i`-th synthetic user.
pub open spec fn is_synthetic_user(u: NewUser, i: nat) -> bool {
    &&& u.name@ == user_name(i)
    &&& u.hair_color matches Some(h) && h@ == user_hair_color(i)
}

/// The rows that inserting `n` users writes: the synthetic users `0` to `n - 1`.
pub fn new_users(n: usize) -> (r: Vec<NewUser>)
    ensures
        r.len() == n,
        forall|i: int| 0 <= i < n ==> is_synthetic_user(#[trigger] r@[i], i as nat),
{
    let mut r: Vec<NewUser> = Vec::new();
    let mut i: usize = 0;
    while i < n
        invariant
            i <= n,
            r.len() == i,
            forall|k: int| 0 <= k < i ==> is_synthetic_user(#[trigger] r@[k], k as nat),
        decreases n - i,
    {
        r.push(NewUser::new(i as u64));
        i = i + 1;
    }
    r
}

proof fn lemma_prefixed_injective(p: Seq<char>, a: nat, b: nat)
    requires
        p + decimal(a) == p + decimal(b),
    ensures
        a == b,
{
    assert((p + decimal(a)).subrange(p.len() as int, (p + decimal(a)).len() as int) =~= decimal(a));
    assert((p + decimal(b)).subrange(p.len() as int, (p + decimal(b)).len() as int) =~= decimal(b));
    lemma_decimal_injective(a, b);
}

/// Whether the `i`-th and `j`-th synthetic users differ in name and in hair color.
pub open spec fn synthetic_users_differ(i: nat, j: nat) -> bool {
    user_name(i) != user_name(j) && user_hair_color(i) != user_hair_color(j)
}

/// The `n` users that inserting `n` users writes have pairwise distinct
/// names and pairwise distinct hair colors.
pub proof fn synthetic_users_are_distinct(n: nat)
    ensures
        forall|i: nat, j: nat| i < n && j < n && i != j ==> #[trigger] synthetic_users_differ(i, j),
{
    assert forall|i: nat, j: nat| i < n && j < n && i != j implies #[trigger] synthetic_users_differ(i, j) by {
        if user_name(i) == user_name(j) {
            lemma_prefixed_injective("User "@, i, j);
        }
        if user_hair_color(i) == user_hair_color(j) {
            lemma_prefixed_injective("hair color "@, i, j);
        }
    }
}

/// The content of every seeded post: `abcabc...`, [`CONTENT_LEN`] characters.
pub open spec fn post_content() -> Seq<char> {
    Seq::new(CONTENT_LEN as nat, |k: int| if k % 3 == 0 { 'a' } else if k % 3 == 1 { 'b' } else { 'c' })
}

/// The title of the `id`-th post of the `user`-th user: `Post number {id} for user {user}`.
pub open spec fn post_title(id: nat, user: nat) -> Seq<char> {
    "Post number "@ + decimal(id) + " for user "@ + decimal(user)
}

/// A row to insert into `posts`.
#[derive(Clone, Debug)]
pub struct NewPost {
    pub title: String,
    pub content: String,
    pub author: u128,
}

impl NewPost {
    /// The `id`-th post of the `user`-th user, whose id is `author`.
    pub fn new(id: u64, user: u64, author: u128) -> (r: NewPost)
        ensures
            r.title@ == post_title(id as nat, user as nat),
            r.content@ == post_content(),
            r.author == author,
    {
        let mut title = String::from_str("Post number ");
        push_decimal(&mut title, id);
        title.append(" for user ");
        push_decimal(&mut title, user);
        let mut content = String::new();
        let mut k: usize = 0;
        while k < CONTENT_LEN
            invariant
                k <= CONTENT_LEN,
                content@ == post_content().take(k as int),
            decreases CONTENT_LEN - k,
        {
            let c = if k % 3 == 0 {
                'a'
            } else if k % 3 == 1 {
                'b'
            } else {
                'c'
            };
            push_char(&mut content, c);
            assert(content@ =~= post_content().take(k + 1));
            k = k + 1;
        }
        assert(content@ =~= post_content());
        NewPost { title, content, author }
    }
}

} // verus!
