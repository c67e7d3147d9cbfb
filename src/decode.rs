//! Decoding of result sets in text form into users and posts.
use vstd::prelude::*;

use crate::entity::{
    post_views, user_hair_color, user_name, user_views, Post, PostView, Timestamp, User, UserView,
};
use crate::external::{naive_seconds, parse_naive_seconds, parse_uuid, uuid_of};
use crate::fixture::{BULK_ROWS, LAST_ROW_OFFSET};
use crate::text::{parse_text_array, text_array};

verus! {

/// The status of an executed statement, as the server reports it.
#[derive(Clone, Copy, Debug, PartialEq, Eq, Structural)]
pub enum Status {
    EmptyQuery,
    CommandOk,
    TuplesOk,
    CopyOut,
    CopyIn,
    BadResponse,
    NonFatalError,
    FatalError,
    CopyBoth,
    SingleTuple,
}

/// The outcome of a statement in text form: its status, the server's
/// message where it failed, and its rows, each with one cell per column
/// (`None` for SQL null).
#[derive(Clone, Debug)]
pub struct QueryResult {
    pub status: Status,
    pub error_message: Option<String>,
    pub rows: Vec<Vec<Option<String>>>,
}

/// Why a statement or the decoding of its result failed.
#[derive(Clone, Debug, PartialEq, Eq)]
pub enum Error {
    /// The server reported a failure with this message.
    Backend(String),
    /// The server reported a failure without a message.
    Unknown,
    /// The result set has no row at this position.
    OutOfRange { row: usize, rows: usize },
    /// A column that a row needs is null or absent.
    MissingValue { row: usize, column: usize },
    /// A column does not hold a UUID.
    InvalidId { row: usize, column: usize },
    /// No user has the requested id.
    NotFound,
}

/// Whether the status reports a failed statement.
pub open spec fn failed(s: Status) -> bool {
    s == Status::BadResponse || s == Status::NonFatalError || s == Status::FatalError
}

/// The error that a failed statement reports.
pub open spec fn failure(res: QueryResult) -> Error {
    match res.error_message {
        Some(m) => Error::Backend(m),
        None => Error::Unknown,
    }
}

/// The result set itself where the statement succeeded, else its failure.
pub fn to_result(result: &QueryResult) -> (r: Result<&QueryResult, Error>)
    ensures
        failed(result.status) ==> r == Err::<&QueryResult, Error>(failure(*result)),
        !failed(result.status) ==> r == Ok::<&QueryResult, Error>(result),
{
    match result.status {
        Status::BadResponse | Status::NonFatalError | Status::FatalError => {
            match &result.error_message {
                Some(m) => Err(Error::Backend(m.clone())),
                None => Err(Error::Unknown),
            }
        },
        _ => Ok(result),
    }
}

/// The cell of column `c` in `row`; `None` where it is null or absent.
pub open spec fn cell(row: Seq<Option<String>>, c: int) -> Option<String> {
    if 0 <= c < row.len() {
        row[c]
    } else {
        None
    }
}

fn get_cell(row: &Vec<Option<String>>, c: usize) -> (r: Option<&String>)
    ensures
        match cell(row@, c as int) {
            Some(s) => r == Some(&s),
            None => r is None,
        },
{
    if c < row.len() {
        match &row[c] {
            Some(s) => Some(s),
            None => None,
        }
    } else {
        None
    }
}

/// The creation time that a cell holds, where chrono reads it as `%F %T`.
pub open spec fn timestamp_cell(c: Option<String>) -> Option<Timestamp> {
    match c {
        Some(s) => match naive_seconds(s@, "%F %T"@) {
            Some(t) => Some(Timestamp { seconds: t }),
            None => None,
        },
        None => None,
    }
}

/// The post titles of a row: its fifth column read as an array literal
/// (null reads as the empty text); none where the row has four columns.
pub open spec fn posts_cell(row: Seq<Option<String>>) -> Seq<Seq<char>> {
    if row.len() >= 5 {
        text_array(
            match row[4] {
                Some(s) => s@,
                None => Seq::empty(),
            },
        )
    } else {
        Seq::empty()
    }
}

/// The user that the row at position `x` holds: id, name, hair color,
/// creation time and, optionally, post titles.
pub open spec fn user_row(row: Seq<Option<String>>, x: usize) -> Result<UserView, Error> {
    match cell(row, 0) {
        None => Err(Error::MissingValue { row: x, column: 0 }),
        Some(id) => match uuid_of(id@) {
            None => Err(Error::InvalidId { row: x, column: 0 }),
            Some(id) => match cell(row, 1) {
                None => Err(Error::MissingValue { row: x, column: 1 }),
                Some(name) => Ok(
                    UserView {
                        id,
                        name: name@,
                        hair_color: cell(row, 2).deep_view(),
                        created_at: timestamp_cell(cell(row, 3)),
                        posts: posts_cell(row),
                    },
                ),
            },
        },
    }
}

/// The user at position `x` of a result set.
pub open spec fn decoded_user(res: QueryResult, x: usize) -> Result<UserView, Error> {
    if failed(res.status) {
        Err(failure(res))
    } else if x >= res.rows.len() {
        Err(Error::OutOfRange { row: x, rows: res.rows.len() })
    } else {
        user_row(res.rows@[x as int]@, x)
    }
}

/// The view of a decoded user, or its error.
pub open spec fn user_result(r: Result<User, Error>) -> Result<UserView, Error> {
    match r {
        Ok(u) => Ok(u@),
        Err(e) => Err(e),
    }
}

/// The user at position `x` of the result set, as [`decoded_user`] states.
pub fn decode_user(result: &QueryResult, x: usize) -> (r: Result<User, Error>)
    ensures
        user_result(r) == decoded_user(*result, x),
{
    if let Err(e) = to_result(result) {
        return Err(e);
    }
    if x >= result.rows.len() {
        return Err(Error::OutOfRange { row: x, rows: result.rows.len() });
    }
    let row = &result.rows[x];
    let id = match get_cell(row, 0) {
        Some(s) => match parse_uuid(s.as_str()) {
            Some(v) => v,
            None => return Err(Error::InvalidId { row: x, column: 0 }),
        },
        None => return Err(Error::MissingValue { row: x, column: 0 }),
    };
    let name = match get_cell(row, 1) {
        Some(s) => s.clone(),
        None => return Err(Error::MissingValue { row: x, column: 1 }),
    };
    let hair_color = match get_cell(row, 2) {
        Some(s) => Some(s.clone()),
        None => None,
    };
    let created_at = match get_cell(row, 3) {
        Some(s) => match parse_naive_seconds(s.as_str(), "%F %T") {
            Some(t) => Some(Timestamp { seconds: t }),
            None => None,
        },
        None => None,
    };
    let posts = if row.len() >= 5 {
        match get_cell(row, 4) {
            Some(s) => parse_text_array(s.as_str()),
            None => parse_text_array(""),
        }
    } else {
        Vec::new()
    };
    proof {
        reveal_strlit("");
    }
    let user = User { id, name, hair_color, created_at, posts };
    let ghost expect = user_row(row@, x).unwrap();
    assert(user.hair_color.deep_view() == expect.hair_color);
    assert(user.posts.deep_view() == expect.posts);
    Ok(user)
}

/// The users of the first `n` rows, or the error of the first row that
/// holds none.
pub open spec fn users_prefix(res: QueryResult, n: nat) -> Result<Seq<UserView>, Error>
    decreases n,
{
    if n == 0 {
        Ok(Seq::empty())
    } else {
        match users_prefix(res, (n - 1) as nat) {
            Err(e) => Err(e),
            Ok(s) => match user_row(res.rows@[n - 1]@, (n - 1) as usize) {
                Err(e) => Err(e),
                Ok(u) => Ok(s.push(u)),
            },
        }
    }
}

proof fn lemma_users_prefix_stays_failed(res: QueryResult, k: nat, m: nat)
    requires
        k <= m,
        users_prefix(res, k) is Err,
    ensures
        users_prefix(res, m) == users_prefix(res, k),
    decreases m - k,
{
    if k < m {
        lemma_users_prefix_stays_failed(res, k, (m - 1) as nat);
    }
}

/// The users of all rows of a result set, in its order.
pub open spec fn decoded_users(res: QueryResult) -> Result<Seq<UserView>, Error> {
    if failed(res.status) {
        Err(failure(res))
    } else {
        users_prefix(res, res.rows.len() as nat)
    }
}

/// The views of decoded users, or their error.
pub open spec fn users_result(r: Result<Vec<User>, Error>) -> Result<Seq<UserView>, Error> {
    match r {
        Ok(us) => Ok(user_views(us@)),
        Err(e) => Err(e),
    }
}

/// The users of all rows of the result set, as [`decoded_users`] states.
pub fn decode_all(result: &QueryResult) -> (r: Result<Vec<User>, Error>)
    ensures
        users_result(r) == decoded_users(*result),
{
    if let Err(e) = to_result(result) {
        return Err(e);
    }
    let mut users: Vec<User> = Vec::new();
    let mut x: usize = 0;
    assert(user_views(users@) =~= Seq::<UserView>::empty());
    while x < result.rows.len()
        invariant
            !failed(result.status),
            x <= result.rows.len(),
            users_prefix(*result, x as nat) == Ok::<Seq<UserView>, Error>(user_views(users@)),
        decreases result.rows.len() - x,
    {
        match decode_user(result, x) {
            Ok(u) => {
                let ghost before = users@;
                users.push(u);
                assert(user_views(users@) =~= user_views(before).push(u@));
            },
            Err(e) => {
                assert(users_prefix(*result, (x + 1) as nat) == Err::<Seq<UserView>, Error>(e));
                proof {
                    lemma_users_prefix_stays_failed(*result, (x + 1) as nat, result.rows.len() as nat);
                    assert(decoded_users(*result) == Err::<Seq<UserView>, Error>(e));
                }
                return Err(e);
            },
        }
        x = x + 1;
    }
    Ok(users)
}

proof fn lemma_users_prefix_rows(res: QueryResult, n: nat)
    requires
        n <= res.rows.len(),
        users_prefix(res, n) is Ok,
    ensures
        users_prefix(res, n).unwrap().len() == n,
        forall|k: int|
            0 <= k < n ==> user_row(res.rows@[k]@, k as usize) == Ok::<UserView, Error>(
                #[trigger] users_prefix(res, n).unwrap()[k],
            ),
    decreases n,
{
    if n > 0 {
        lemma_users_prefix_rows(res, (n - 1) as nat);
    }
}

/// Decoding neither loses nor duplicates rows: where a result set decodes,
/// it gives one user per row, the `k`-th user being the one that the `k`-th
/// row holds on its own.
pub proof fn decoded_users_match_rows(res: QueryResult)
    requires
        decoded_users(res) is Ok,
    ensures
        decoded_users(res).unwrap().len() == res.rows.len(),
        forall|k: int|
            0 <= k < res.rows.len() ==> decoded_user(res, k as usize) == Ok::<UserView, Error>(
                #[trigger] decoded_users(res).unwrap()[k],
            ),
{
    lemma_users_prefix_rows(res, res.rows.len() as nat);
}

proof fn lemma_users_prefix_all_ok(res: QueryResult, m: nat)
    requires
        m <= res.rows.len(),
        forall|k: int| 0 <= k < m ==> (#[trigger] user_row(res.rows@[k]@, k as usize)) is Ok,
    ensures
        users_prefix(res, m) is Ok,
    decreases m,
{
    if m > 0 {
        lemma_users_prefix_all_ok(res, (m - 1) as nat);
        assert(user_row(res.rows@[m - 1]@, (m - 1) as usize) is Ok);
    }
}

/// Whether the row at position `k` holds the `k`-th synthetic user under a
/// readable id.
pub open spec fn holds_synthetic_user(row: Seq<Option<String>>, k: nat) -> bool {
    &&& cell(row, 0) matches Some(id) && uuid_of(id@) is Some
    &&& cell(row, 1) matches Some(name) && name@ == user_name(k)
    &&& cell(row, 2).deep_view() == Some(user_hair_color(k))
}

/// Reading back `n` inserted users: a successful result set whose `n` rows
/// hold the synthetic users `0` to `n - 1` decodes into exactly `n` users,
/// the `k`-th named `User {k}` with hair color `hair color {k}`.
pub proof fn inserted_users_read_back(res: QueryResult, n: nat)
    requires
        !failed(res.status),
        res.rows.len() == n,
        forall|k: int| 0 <= k < n ==> holds_synthetic_user(#[trigger] res.rows@[k]@, k as nat),
    ensures
        decoded_users(res) is Ok,
        decoded_users(res).unwrap().len() == n,
        forall|k: int|
            0 <= k < n ==> (#[trigger] decoded_users(res).unwrap()[k]).name == user_name(k as nat)
                && decoded_users(res).unwrap()[k].hair_color == Some(user_hair_color(k as nat)),
{
    assert forall|k: int| 0 <= k < n implies (#[trigger] user_row(res.rows@[k]@, k as usize)) is Ok by {
        assert(holds_synthetic_user(res.rows@[k]@, k as nat));
    }
    lemma_users_prefix_all_ok(res, n);
    decoded_users_match_rows(res);
    assert forall|k: int| 0 <= k < n implies (#[trigger] decoded_users(res).unwrap()[k]).name == user_name(k as nat)
        && decoded_users(res).unwrap()[k].hair_color == Some(user_hair_color(k as nat)) by {
        assert(holds_synthetic_user(res.rows@[k]@, k as nat));
        assert(decoded_user(res, k as usize) == Ok::<UserView, Error>(decoded_users(res).unwrap()[k]));
    }
}

/// The first user of a result set that holds a row is among all its users.
pub proof fn first_user_is_among_all(res: QueryResult)
    requires
        decoded_users(res) is Ok,
        res.rows.len() >= 1,
    ensures
        decoded_user(res, 0) is Ok,
        decoded_users(res).unwrap().contains(decoded_user(res, 0).unwrap()),
{
    decoded_users_match_rows(res);
    assert(decoded_users(res).unwrap()[0] == decoded_user(res, 0).unwrap());
}

/// In a result set of exactly [`BULK_ROWS`] rows, the user at
/// [`LAST_ROW_OFFSET`] is the last of all its users.
pub proof fn last_user_is_last_of_bulk(res: QueryResult)
    requires
        decoded_users(res) is Ok,
        res.rows.len() == BULK_ROWS,
    ensures
        decoded_user(res, LAST_ROW_OFFSET) == Ok::<UserView, Error>(decoded_users(res).unwrap().last()),
{
    decoded_users_match_rows(res);
    assert(decoded_users(res).unwrap()[LAST_ROW_OFFSET as int] == decoded_users(res).unwrap().last());
}

/// The first user of the result set.
pub fn decode_first(result: &QueryResult) -> (r: Result<User, Error>)
    ensures
        user_result(r) == decoded_user(*result, 0),
{
    decode_user(result, 0)
}

/// The user at [`LAST_ROW_OFFSET`] of the result set: the last one where it
/// holds exactly 10000 rows, an [`Error::OutOfRange`] where it holds fewer.
pub fn decode_last(result: &QueryResult) -> (r: Result<User, Error>)
    ensures
        user_result(r) == decoded_user(*result, LAST_ROW_OFFSET),
{
    decode_user(result, LAST_ROW_OFFSET)
}

/// The post that the row at position `x` holds: id, title, content, author.
pub open spec fn post_row(row: Seq<Option<String>>, x: usize) -> Result<PostView, Error> {
    match cell(row, 0) {
        None => Err(Error::MissingValue { row: x, column: 0 }),
        Some(id) => match uuid_of(id@) {
            None => Err(Error::InvalidId { row: x, column: 0 }),
            Some(id) => match cell(row, 1) {
                None => Err(Error::MissingValue { row: x, column: 1 }),
                Some(title) => match cell(row, 2) {
                    None => Err(Error::MissingValue { row: x, column: 2 }),
                    Some(content) => match cell(row, 3) {
                        None => Err(Error::MissingValue { row: x, column: 3 }),
                        Some(author) => match uuid_of(author@) {
                            None => Err(Error::InvalidId { row: x, column: 3 }),
                            Some(author) => Ok(
                                PostView { id, title: title@, content: content@, author },
                            ),
                        },
                    },
                },
            },
        },
    }
}

/// The posts of the first `n` rows, or the error of the first row that
/// holds none.
pub open spec fn posts_prefix(res: QueryResult, n: nat) -> Result<Seq<PostView>, Error>
    decreases n,
{
    if n == 0 {
        Ok(Seq::empty())
    } else {
        match posts_prefix(res, (n - 1) as nat) {
            Err(e) => Err(e),
            Ok(s) => match post_row(res.rows@[n - 1]@, (n - 1) as usize) {
                Err(e) => Err(e),
                Ok(p) => Ok(s.push(p)),
            },
        }
    }
}

proof fn lemma_posts_prefix_stays_failed(res: QueryResult, k: nat, m: nat)
    requires
        k <= m,
        posts_prefix(res, k) is Err,
    ensures
        posts_prefix(res, m) == posts_prefix(res, k),
    decreases m - k,
{
    if k < m {
        lemma_posts_prefix_stays_failed(res, k, (m - 1) as nat);
    }
}

/// The posts of all rows of a result set, in its order.
pub open spec fn decoded_posts(res: QueryResult) -> Result<Seq<PostView>, Error> {
    if failed(res.status) {
        Err(failure(res))
    } else {
        posts_prefix(res, res.rows.len() as nat)
    }
}

/// The views of decoded posts, or their error.
pub open spec fn posts_result(r: Result<Vec<Post>, Error>) -> Result<Seq<PostView>, Error> {
    match r {
        Ok(ps) => Ok(post_views(ps@)),
        Err(e) => Err(e),
    }
}

fn decode_post(row: &Vec<Option<String>>, x: usize) -> (r: Result<Post, Error>)
    ensures
        match r {
            Ok(p) => post_row(row@, x) == Ok::<PostView, Error>(p@),
            Err(e) => post_row(row@, x) == Err::<PostView, Error>(e),
        },
{
    let id = match get_cell(row, 0) {
        Some(s) => match parse_uuid(s.as_str()) {
            Some(v) => v,
            None => return Err(Error::InvalidId { row: x, column: 0 }),
        },
        None => return Err(Error::MissingValue { row: x, column: 0 }),
    };
    let title = match get_cell(row, 1) {
        Some(s) => s.clone(),
        None => return Err(Error::MissingValue { row: x, column: 1 }),
    };
    let content = match get_cell(row, 2) {
        Some(s) => s.clone(),
        None => return Err(Error::MissingValue { row: x, column: 2 }),
    };
    let author = match get_cell(row, 3) {
        Some(s) => match parse_uuid(s.as_str()) {
            Some(v) => v,
            None => return Err(Error::InvalidId { row: x, column: 3 }),
        },
        None => return Err(Error::MissingValue { row: x, column: 3 }),
    };
    Ok(Post { id, title, content, author })
}

/// The posts of all rows of the result set, as [`decoded_posts`] states.
pub fn decode_posts(result: &QueryResult) -> (r: Result<Vec<Post>, Error>)
    ensures
        posts_result(r) == decoded_posts(*result),
{
    if let Err(e) = to_result(result) {
        return Err(e);
    }
    let mut posts: Vec<Post> = Vec::new();
    let mut x: usize = 0;
    assert(post_views(posts@) =~= Seq::<PostView>::empty());
    while x < result.rows.len()
        invariant
            !failed(result.status),
            x <= result.rows.len(),
            posts_prefix(*result, x as nat) == Ok::<Seq<PostView>, Error>(post_views(posts@)),
        decreases result.rows.len() - x,
    {
        match decode_post(&result.rows[x], x) {
            Ok(p) => {
                let ghost before = posts@;
                posts.push(p);
                assert(post_views(posts@) =~= post_views(before).push(p@));
            },
            Err(e) => {
                assert(posts_prefix(*result, (x + 1) as nat) == Err::<Seq<PostView>, Error>(e));
                proof {
                    lemma_posts_prefix_stays_failed(*result, (x + 1) as nat, result.rows.len() as nat);
                    assert(decoded_posts(*result) == Err::<Seq<PostView>, Error>(e));
                }
                return Err(e);
            },
        }
        x = x + 1;
    }
    Ok(posts)
}

} // verus!
