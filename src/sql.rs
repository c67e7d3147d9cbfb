//! The statements that the benchmarks send, as text.
use vstd::prelude::*;

use crate::entity::NewUser;
use crate::external::{push_char, uuid_text, uuid_to_text};
use crate::fixture::{CONTENT_LEN, FIXED_USER_ID};
use crate::text::{chars_of, decimal, push_decimal};

verus! {

/// `s` with each single quote doubled.
pub open spec fn escaped(s: Seq<char>) -> Seq<char>
    decreases s.len(),
{
    if s.len() == 0 {
        Seq::empty()
    } else if s.last() == '\'' {
        escaped(s.drop_last()) + seq!['\'', '\'']
    } else {
        escaped(s.drop_last()).push(s.last())
    }
}

/// `s` as an SQL string literal.
pub open spec fn quoted(s: Seq<char>) -> Seq<char> {
    seq!['\''] + escaped(s) + seq!['\'']
}

/// Appends `t` to `s` as an SQL string literal.
fn push_quoted(s: &mut String, t: &str)
    ensures
        final(s)@ == old(s)@ + quoted(t@),
{
    let v = chars_of(t);
    push_char(s, '\'');
    let ghost start = s@;
    let mut k: usize = 0;
    while k < v.len()
        invariant
            k <= v.len(),
            v@ == t@,
            s@ == start + escaped(v@.take(k as int)),
        decreases v.len() - k,
    {
        let c = v[k];
        assert(v@.take(k + 1).drop_last() =~= v@.take(k as int));
        if c == '\'' {
            push_char(s, '\'');
            push_char(s, '\'');
        } else {
            push_char(s, c);
        }
        assert(s@ =~= start + escaped(v@.take(k + 1)));
        k = k + 1;
    }
    assert(v@.take(v.len() as int) =~= t@);
    push_char(s, '\'');
    assert(s@ =~= old(s)@ + quoted(t@));
}

/// The values of one new user in an `INSERT`: `('name', 'hair color')`,
/// with `NULL` for a missing hair color.
pub open spec fn value_row(u: NewUser) -> Seq<char> {
    seq!['('] + quoted(u.name@) + seq![',', ' '] + match u.hair_color {
        Some(h) => quoted(h@),
        None => "NULL"@,
    } + seq![')']
}

/// The values of the new users `us`, separated by `, `.
pub open spec fn value_rows(us: Seq<NewUser>) -> Seq<char>
    decreases us.len(),
{
    if us.len() == 0 {
        Seq::empty()
    } else if us.len() == 1 {
        value_row(us[0])
    } else {
        value_rows(us.drop_last()) + seq![',', ' '] + value_row(us.last())
    }
}

/// The statement that inserts the new users `us` in one go.
pub open spec fn insert_users_sql(us: Seq<NewUser>) -> Seq<char> {
    "INSERT INTO users (name, hair_color) VALUES "@ + value_rows(us)
}

/// The statement that inserts the new users of `batch` in one go; none for
/// an empty batch, which has nothing to insert.
pub fn insert_users_statement(batch: &Vec<NewUser>) -> (r: Option<String>)
    ensures
        batch.len() == 0 ==> r is None,
        batch.len() > 0 ==> (r matches Some(s) && s@ == insert_users_sql(batch@)),
{
    if batch.len() == 0 {
        return None;
    }
    let mut s = String::from_str("INSERT INTO users (name, hair_color) VALUES ");
    let ghost head = s@;
    let mut k: usize = 0;
    while k < batch.len()
        invariant
            k <= batch.len(),
            s@ == head + value_rows(batch@.take(k as int)),
        decreases batch.len() - k,
    {
        let ghost before = s@;
        if k > 0 {
            push_char(&mut s, ',');
            push_char(&mut s, ' ');
        }
        push_char(&mut s, '(');
        push_quoted(&mut s, batch[k].name.as_str());
        push_char(&mut s, ',');
        push_char(&mut s, ' ');
        match &batch[k].hair_color {
            Some(h) => push_quoted(&mut s, h.as_str()),
            None => {
                s.append("NULL");
            },
        }
        push_char(&mut s, ')');
        assert(batch@.take(k + 1).drop_last() =~= batch@.take(k as int));
        if k == 0 {
            assert(s@ =~= head + value_rows(batch@.take(1)));
        } else {
            assert(s@ =~= head + value_rows(batch@.take(k + 1)));
        }
        k = k + 1;
    }
    assert(batch@.take(batch.len() as int) =~= batch@);
    proof {
        reveal_strlit("INSERT INTO users (name, hair_color) VALUES ");
    }
    Some(s)
}

/// The table of users: its name, primary key and columns.
pub struct Structure;

/// The columns of `users`.
pub open spec fn user_columns() -> Seq<Seq<char>> {
    seq!["id"@, "name"@, "hair_color"@, "created_at"@]
}

impl Structure {
    /// The qualified name of the table.
    pub fn relation() -> (r: &'static str)
        ensures
            r@ == "public.users"@,
    {
        "public.users"
    }

    /// The columns of the primary key.
    pub fn primary_key() -> (r: Vec<&'static str>)
        ensures
            r.deep_view() == seq!["id"@],
    {
        let r = vec!["id"];
        assert(r.deep_view() =~= seq!["id"@]);
        r
    }

    /// The columns of the table, in their order.
    pub fn columns() -> (r: Vec<&'static str>)
        ensures
            r.deep_view() == user_columns(),
    {
        let r = vec!["id", "name", "hair_color", "created_at"];
        assert(r.deep_view() =~= user_columns());
        r
    }
}

/// The columns `cols` under the alias `alias`, each cast to text, separated by `, `.
pub open spec fn aliased(alias: Seq<char>, cols: Seq<Seq<char>>) -> Seq<char>
    decreases cols.len(),
{
    if cols.len() == 0 {
        Seq::empty()
    } else if cols.len() == 1 {
        alias + seq!['.'] + cols[0] + "::text"@
    } else {
        aliased(alias, cols.drop_last()) + seq![',', ' '] + alias + seq!['.'] + cols.last() + "::text"@
    }
}

/// What the relation queries select: the user's columns under `u`, then the
/// titles of its posts aggregated into one array.
pub open spec fn projection_sql() -> Seq<char> {
    aliased("u"@, user_columns()) + ", array_agg(p.title)::text AS posts"@
}

/// The statement that reads each user with the titles of its posts, or,
/// given an id, that user alone.
pub open spec fn relation_sql(id: Option<u128>) -> Seq<char> {
    "SELECT "@ + projection_sql() + " FROM users u JOIN posts p ON p.author = u.id"@ + match id {
        Some(id) => " WHERE u.id = '"@ + uuid_text(id) + "'"@,
        None => Seq::empty(),
    } + " GROUP BY u.id, u.name, u.hair_color, u.created_at"@
}

/// Builds the statements that read users with their posts' titles.
pub struct Model;

impl Model {
    /// The columns that the relation queries select, as [`projection_sql`] states.
    pub fn projection() -> (r: String)
        ensures
            r@ == projection_sql(),
    {
        let cols = Structure::columns();
        let mut r = String::new();
        let mut k: usize = 0;
        while k < cols.len()
            invariant
                k <= cols.len(),
                cols.deep_view() == user_columns(),
                r@ == aliased("u"@, user_columns().take(k as int)),
            decreases cols.len() - k,
        {
            let ghost before = r@;
            if k > 0 {
                r.append(", ");
            }
            r.append("u.");
            r.append(cols[k]);
            r.append("::text");
            proof {
                let t = user_columns().take(k + 1);
                assert(t.drop_last() =~= user_columns().take(k as int));
                assert(t.last() == cols@[k as int]@);
                reveal_strlit(", ");
                reveal_strlit("u.");
                reveal_strlit("u");
                if k == 0 {
                    assert(r@ =~= aliased("u"@, t));
                } else {
                    assert(r@ =~= aliased("u"@, t));
                }
            }
            k = k + 1;
        }
        assert(user_columns().take(4) =~= user_columns());
        r.append(", array_agg(p.title)::text AS posts");
        r
    }

    fn relation_query(id: Option<u128>) -> (r: String)
        ensures
            r@ == relation_sql(id),
    {
        let mut r = String::from_str("SELECT ");
        let p = Model::projection();
        r.append(p.as_str());
        r.append(" FROM users u JOIN posts p ON p.author = u.id");
        match id {
            Some(v) => {
                r.append(" WHERE u.id = '");
                let t = uuid_to_text(v);
                r.append(t.as_str());
                r.append("'");
            },
            None => {},
        }
        r.append(" GROUP BY u.id, u.name, u.hair_color, u.created_at");
        r
    }

    /// The statement that reads the user `id` with the titles of its posts.
    pub fn user_with_posts_query(id: u128) -> (r: String)
        ensures
            r@ == relation_sql(Some(id)),
    {
        Model::relation_query(Some(id))
    }

    /// The statement that reads every user that wrote posts, with their titles.
    pub fn users_with_posts_query() -> (r: String)
        ensures
            r@ == relation_sql(None),
    {
        Model::relation_query(None)
    }
}

/// The statement that reads every user, each column as text.
pub fn users_query() -> (r: &'static str)
    ensures
        r@ == "SELECT id::text, name, hair_color, created_at::text FROM users"@,
{
    "SELECT id::text, name, hair_color, created_at::text FROM users"
}

/// The statement that reads the user `id`, each column as text.
pub fn user_query(id: u128) -> (r: String)
    ensures
        r@ == "SELECT id::text, name, hair_color, created_at::text FROM users WHERE id = '"@ + uuid_text(id) + "'"@,
{
    let mut r = String::from_str("SELECT id::text, name, hair_color, created_at::text FROM users WHERE id = '");
    let t = uuid_to_text(id);
    r.append(t.as_str());
    r.append("'");
    r
}

/// The statement that reads every post, each column as text.
pub fn posts_query() -> (r: &'static str)
    ensures
        r@ == "SELECT id::text, title, content, author::text FROM posts"@,
{
    "SELECT id::text, title, content, author::text FROM posts"
}

/// The statement that reads the posts of the user `id`, each column as text.
pub fn posts_by_query(id: u128) -> (r: String)
    ensures
        r@ == "SELECT id::text, title, content, author::text FROM posts WHERE author = '"@ + uuid_text(id) + "'"@,
{
    let mut r = String::from_str("SELECT id::text, title, content, author::text FROM posts WHERE author = '");
    let t = uuid_to_text(id);
    r.append(t.as_str());
    r.append("'");
    r
}

/// The script that creates both tables afresh, seeds `users` users (the
/// `i`-th named `User {i}`, the first with the id [`FIXED_USER_ID`]) and
/// `posts` posts for each of them.
pub open spec fn setup_sql(users: nat, posts: nat) -> Seq<char> {
    "DROP TABLE IF EXISTS posts; DROP TABLE IF EXISTS users; CREATE TABLE users (id uuid PRIMARY KEY DEFAULT gen_random_uuid(), name varchar NOT NULL, hair_color varchar, created_at timestamp NOT NULL DEFAULT now()); CREATE TABLE posts (id uuid PRIMARY KEY DEFAULT gen_random_uuid(), title text NOT NULL, content text NOT NULL, author uuid NOT NULL REFERENCES users (id) ON DELETE CASCADE); INSERT INTO users (id, name, hair_color) SELECT CASE WHEN i = 0 THEN '"@
        + uuid_text(FIXED_USER_ID)
        + "'::uuid ELSE gen_random_uuid() END, 'User ' || i, 'hair color ' || i FROM generate_series(0, "@
        + decimal(users)
        + " - 1) AS i; INSERT INTO posts (title, content, author) SELECT 'Post number ' || j || ' for user ' || substr(u.name, 6), left(repeat('abc', "@
        + decimal(CONTENT_LEN as nat)
        + "), "@
        + decimal(CONTENT_LEN as nat)
        + "), u.id FROM users u, generate_series(0, "@
        + decimal(posts)
        + " - 1) AS j"@
}

/// The script that creates both tables and seeds them, as [`setup_sql`] states.
pub fn setup_script(users: usize, posts: usize) -> (r: String)
    ensures
        r@ == setup_sql(users as nat, posts as nat),
{
    let mut r = String::from_str(
        "DROP TABLE IF EXISTS posts; DROP TABLE IF EXISTS users; CREATE TABLE users (id uuid PRIMARY KEY DEFAULT gen_random_uuid(), name varchar NOT NULL, hair_color varchar, created_at timestamp NOT NULL DEFAULT now()); CREATE TABLE posts (id uuid PRIMARY KEY DEFAULT gen_random_uuid(), title text NOT NULL, content text NOT NULL, author uuid NOT NULL REFERENCES users (id) ON DELETE CASCADE); INSERT INTO users (id, name, hair_color) SELECT CASE WHEN i = 0 THEN '",
    );
    let t = uuid_to_text(FIXED_USER_ID);
    r.append(t.as_str());
    r.append("'::uuid ELSE gen_random_uuid() END, 'User ' || i, 'hair color ' || i FROM generate_series(0, ");
    push_decimal(&mut r, users as u64);
    r.append(" - 1) AS i; INSERT INTO posts (title, content, author) SELECT 'Post number ' || j || ' for user ' || substr(u.name, 6), left(repeat('abc', ");
    push_decimal(&mut r, CONTENT_LEN as u64);
    r.append("), ");
    push_decimal(&mut r, CONTENT_LEN as u64);
    r.append("), u.id FROM users u, generate_series(0, ");
    push_decimal(&mut r, posts as u64);
    r.append(" - 1) AS j");
    r
}

/// The statements that drop both tables, posts first.
pub fn tear_down_statements() -> (r: Vec<&'static str>)
    ensures
        r.deep_view() == seq!["DROP TABLE IF EXISTS posts"@, "DROP TABLE IF EXISTS users"@],
{
    let r = vec!["DROP TABLE IF EXISTS posts", "DROP TABLE IF EXISTS users"];
    assert(r.deep_view() =~= seq!["DROP TABLE IF EXISTS posts"@, "DROP TABLE IF EXISTS users"@]);
    r
}

} // verus!
