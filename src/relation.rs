//! Users paired with the posts that they wrote.
use vstd::prelude::*;

use crate::decode::{decode_all, decode_first, decoded_user, decoded_users, Error, QueryResult};
use crate::entity::{post_views, user_views, Post, PostView, User, UserView};

verus! {

/// The posts of `ps` whose author is `id`, in their order.
pub open spec fn posts_by(ps: Seq<PostView>, id: u128) -> Seq<PostView> {
    ps.filter(|p: PostView| p.author == id)
}

/// The posts of `posts` whose author is `id`, as [`posts_by`] states.
pub fn posts_of(id: u128, posts: &Vec<Post>) -> (r: Vec<Post>)
    ensures
        post_views(r@) == posts_by(post_views(posts@), id),
{
    let ghost all = post_views(posts@);
    let mut r: Vec<Post> = Vec::new();
    let mut k: usize = 0;
    assert(all.take(0) =~= Seq::<PostView>::empty());
    proof {
        reveal(Seq::filter);
    }
    assert(post_views(r@) =~= posts_by(all.take(0), id));
    while k < posts.len()
        invariant
            k <= posts.len(),
            all == post_views(posts@),
            post_views(r@) == posts_by(all.take(k as int), id),
        decreases posts.len() - k,
    {
        let ghost before = r@;
        if posts[k].author == id {
            r.push(posts[k].duplicate());
        }
        proof {
            reveal(Seq::filter);
            assert(all.take(k + 1).drop_last() =~= all.take(k as int));
        }
        assert(post_views(r@) =~= posts_by(all.take(k + 1), id));
        k = k + 1;
    }
    assert(all.take(posts.len() as int) =~= all);
    r
}

/// The index of the first user of `us` with the id `id`, if any.
pub open spec fn first_with_id(us: Seq<UserView>, id: u128) -> Option<int> {
    if exists|k: int| 0 <= k < us.len() && us[k].id == id {
        Some(
            choose|k: int|
                0 <= k < us.len() && us[k].id == id && forall|j: int| 0 <= j < k ==> us[j].id != id,
        )
    } else {
        None
    }
}

proof fn lemma_first_with_id(us: Seq<UserView>, id: u128, k: int)
    requires
        0 <= k < us.len(),
        us[k].id == id,
        forall|j: int| 0 <= j < k ==> us[j].id != id,
    ensures
        first_with_id(us, id) == Some(k),
{
    let c = choose|c: int|
        0 <= c < us.len() && us[c].id == id && forall|j: int| 0 <= j < c ==> us[j].id != id;
    assert(0 <= c < us.len() && us[c].id == id && forall|j: int| 0 <= j < c ==> us[j].id != id);
    if c < k {
        assert(us[c].id != id);
    } else if c > k {
        assert(us[k].id != id);
    }
}

/// The view of a user paired with posts, or its error.
pub open spec fn relation_result(r: Result<(User, Vec<Post>), Error>) -> Result<(UserView, Seq<PostView>), Error> {
    match r {
        Ok((u, ps)) => Ok((u@, post_views(ps@))),
        Err(e) => Err(e),
    }
}

/// The user of `us` with the id `id` (the first, should several have it),
/// with the posts of `ps` that it wrote.
pub open spec fn relation_of(us: Seq<UserView>, ps: Seq<PostView>, id: u128) -> Result<(UserView, Seq<PostView>), Error> {
    match first_with_id(us, id) {
        Some(k) => Ok((us[k], posts_by(ps, id))),
        None => Err(Error::NotFound),
    }
}

/// The user with the id `id`, with the posts that it wrote, out of the
/// loaded users and posts; [`Error::NotFound`] where no user has that id.
pub fn one_relation(users: &Vec<User>, posts: &Vec<Post>, id: u128) -> (r: Result<(User, Vec<Post>), Error>)
    ensures
        relation_result(r) == relation_of(user_views(users@), post_views(posts@), id),
        r matches Ok((u, ps)) ==> u.id == id && forall|k: int| 0 <= k < ps.len() ==> (#[trigger] ps@[k]).author == id,
{
    let ghost us = user_views(users@);
    let mut k: usize = 0;
    while k < users.len()
        invariant
            k <= users.len(),
            us == user_views(users@),
            forall|j: int| 0 <= j < k ==> us[j].id != id,
        decreases users.len() - k,
    {
        if users[k].id == id {
            proof {
                lemma_first_with_id(us, id, k as int);
            }
            let own = posts_of(id, posts);
            proof {
                assert forall|j: int| 0 <= j < own.len() implies (#[trigger] own@[j]).author == id by {
                    broadcast use vstd::seq_lib::group_filter_ensures;

                    assert(post_views(own@)[j] == own@[j]@);
                }
            }
            return Ok((users[k].duplicate(), own));
        }
        k = k + 1;
    }
    assert(!(exists|j: int| 0 <= j < us.len() && us[j].id == id));
    Err(Error::NotFound)
}

/// Each user of `us` with the posts of `ps` that it wrote.
pub open spec fn grouped(us: Seq<UserView>, ps: Seq<PostView>) -> Seq<(UserView, Seq<PostView>)> {
    us.map_values(|u: UserView| (u, posts_by(ps, u.id)))
}

/// The views of users paired with posts.
pub open spec fn relation_views(s: Seq<(User, Vec<Post>)>) -> Seq<(UserView, Seq<PostView>)> {
    s.map_values(|e: (User, Vec<Post>)| (e.0@, post_views(e.1@)))
}

/// Each user, in their order, with the posts that it wrote, in theirs.
pub fn group_by_author(users: &Vec<User>, posts: &Vec<Post>) -> (r: Vec<(User, Vec<Post>)>)
    ensures
        relation_views(r@) == grouped(user_views(users@), post_views(posts@)),
{
    let mut r: Vec<(User, Vec<Post>)> = Vec::new();
    let mut k: usize = 0;
    while k < users.len()
        invariant
            k <= users.len(),
            r.len() == k,
            relation_views(r@) == grouped(user_views(users@), post_views(posts@)).take(k as int),
        decreases users.len() - k,
    {
        let user = users[k].duplicate();
        let own = posts_of(user.id, posts);
        let ghost before = r@;
        let ghost entry = (user, own);
        assert(entry.0@ == users@[k as int]@);
        r.push((user, own));
        let ghost g = grouped(user_views(users@), post_views(posts@));
        assert(r@ =~= before.push(entry));
        assert(relation_views(r@)[k as int] == g[k as int]);
        assert forall|j: int| 0 <= j < k implies relation_views(r@)[j] == g.take(k + 1)[j] by {
            assert(relation_views(r@)[j] == relation_views(before)[j]);
        }
        assert(relation_views(r@) =~= g.take(k + 1));
        k = k + 1;
    }
    assert(grouped(user_views(users@), post_views(posts@)).take(k as int) =~= grouped(
        user_views(users@),
        post_views(posts@),
    ));
    r
}

/// A user paired with the post titles that its row aggregated.
pub open spec fn titled(u: UserView) -> (UserView, Seq<Seq<char>>) {
    (u, u.posts)
}

/// The views of users paired with post titles.
pub open spec fn titled_views(s: Seq<(User, Vec<String>)>) -> Seq<(UserView, Seq<Seq<char>>)> {
    s.map_values(|e: (User, Vec<String>)| (e.0@, e.1.deep_view()))
}

fn pair_with_titles(user: User) -> (r: (User, Vec<String>))
    ensures
        (r.0@, r.1.deep_view()) == titled(user@),
{
    let posts = user.posts.clone();
    assert(posts.deep_view() =~= user.posts.deep_view());
    (user, posts)
}

/// The first user of a result set whose rows aggregate post titles, with
/// those titles.
pub fn decode_relation(result: &QueryResult) -> (r: Result<(User, Vec<String>), Error>)
    ensures
        match r {
            Ok((u, ps)) => decoded_user(*result, 0) == Ok::<UserView, Error>(u@) && ps.deep_view() == u@.posts,
            Err(e) => decoded_user(*result, 0) == Err::<UserView, Error>(e),
        },
{
    match decode_first(result) {
        Ok(user) => Ok(pair_with_titles(user)),
        Err(e) => Err(e),
    }
}

/// Every user of a result set whose rows aggregate post titles, each with
/// those titles.
pub fn decode_relations(result: &QueryResult) -> (r: Result<Vec<(User, Vec<String>)>, Error>)
    ensures
        match r {
            Ok(v) => decoded_users(*result) matches Ok(us) && titled_views(v@) == us.map_values(|u: UserView| titled(u)),
            Err(e) => decoded_users(*result) == Err::<Seq<UserView>, Error>(e),
        },
{
    let users = match decode_all(result) {
        Ok(users) => users,
        Err(e) => return Err(e),
    };
    let ghost us = user_views(users@);
    let mut r: Vec<(User, Vec<String>)> = Vec::new();
    let mut k: usize = 0;
    while k < users.len()
        invariant
            k <= users.len(),
            r.len() == k,
            us == user_views(users@),
            titled_views(r@) == us.map_values(|u: UserView| titled(u)).take(k as int),
        decreases users.len() - k,
    {
        let entry = pair_with_titles(users[k].duplicate());
        let ghost before = r@;
        r.push(entry);
        let ghost t = us.map_values(|u: UserView| titled(u));
        assert(r@ =~= before.push(entry));
        assert(titled_views(r@)[k as int] == t[k as int]);
        assert forall|j: int| 0 <= j < k implies titled_views(r@)[j] == t.take(k + 1)[j] by {
            assert(titled_views(r@)[j] == titled_views(before)[j]);
        }
        assert(titled_views(r@) =~= t.take(k + 1));
        k = k + 1;
    }
    assert(us.map_values(|u: UserView| titled(u)).take(k as int) =~= us.map_values(|u: UserView| titled(u)));
    Ok(r)
}

/// Whether no two users of `us` share an id.
pub open spec fn distinct_ids(us: Seq<UserView>) -> bool {
    forall|i: int, j: int| 0 <= i < us.len() && 0 <= j < us.len() && i != j ==> us[i].id != us[j].id
}

/// Whether the author of `p` is a user of `us`.
pub open spec fn has_author(us: Seq<UserView>, p: PostView) -> bool {
    exists|i: int| 0 <= i < us.len() && #[trigger] us[i].id == p.author
}

/// Whether the author of every post of `ps` is a user of `us`.
pub open spec fn authors_known(us: Seq<UserView>, ps: Seq<PostView>) -> bool {
    forall|j: int| 0 <= j < ps.len() ==> has_author(us, #[trigger] ps[j])
}

/// Whether `p` stands in the posts of exactly one entry of `g`.
pub open spec fn under_exactly_one(g: Seq<(UserView, Seq<PostView>)>, p: PostView) -> bool {
    exists|i: int|
        0 <= i < g.len() && g[i].1.contains(p) && forall|i2: int|
            0 <= i2 < g.len() && #[trigger] g[i2].1.contains(p) ==> i2 == i
}

/// Grouping posts under users whose ids are distinct, where every post's
/// author is one of them, gives one entry per user, in their order; each
/// post of an entry is one of the posts, written by that entry's user; and
/// each post stands under exactly one user.
pub proof fn grouping_partitions_posts(us: Seq<UserView>, ps: Seq<PostView>)
    requires
        distinct_ids(us),
        authors_known(us, ps),
    ensures
        grouped(us, ps).len() == us.len(),
        forall|i: int| 0 <= i < us.len() ==> (#[trigger] grouped(us, ps)[i]).0 == us[i],
        forall|i: int, p: PostView|
            0 <= i < us.len() && #[trigger] grouped(us, ps)[i].1.contains(p) ==> ps.contains(p) && p.author
                == us[i].id,
        forall|j: int| 0 <= j < ps.len() ==> under_exactly_one(grouped(us, ps), #[trigger] ps[j]),
{
    broadcast use vstd::seq_lib::group_filter_ensures;

    let g = grouped(us, ps);
    assert forall|i: int, p: PostView| 0 <= i < us.len() && #[trigger] g[i].1.contains(p) implies ps.contains(p)
        && p.author == us[i].id by {
        let f = |q: PostView| q.author == us[i].id;
        assert(g[i].1 == ps.filter(f));
        ps.lemma_filter_contains_rev(f, p);
        let k = choose|k: int| 0 <= k < ps.filter(f).len() && ps.filter(f)[k] == p;
        assert(f(ps.filter(f)[k]));
    }
    assert forall|j: int| 0 <= j < ps.len() implies under_exactly_one(g, #[trigger] ps[j]) by {
        assert(has_author(us, ps[j]));
        let i = choose|i: int| 0 <= i < us.len() && #[trigger] us[i].id == ps[j].author;
        let f = |q: PostView| q.author == us[i].id;
        assert(g[i].1 == ps.filter(f));
        assert(f(ps[j]));
        assert(g[i].1.contains(ps[j]));
        assert forall|i2: int| 0 <= i2 < us.len() && #[trigger] g[i2].1.contains(ps[j]) implies i2 == i by {
            assert(ps[j].author == us[i2].id);
        }
        assert(0 <= i < g.len() && g[i].1.contains(ps[j]) && forall|i2: int|
            0 <= i2 < g.len() && #[trigger] g[i2].1.contains(ps[j]) ==> i2 == i);
    }
}

/// The number of posts listed over all entries of `g`.
pub open spec fn listed_posts(g: Seq<(UserView, Seq<PostView>)>) -> nat
    decreases g.len(),
{
    if g.len() == 0 {
        0
    } else {
        listed_posts(g.drop_last()) + g.last().1.len()
    }
}

/// The number of users of `us` with the id `id`.
pub open spec fn id_count(us: Seq<UserView>, id: u128) -> nat
    decreases us.len(),
{
    if us.len() == 0 {
        0
    } else {
        id_count(us.drop_last(), id) + if us.last().id == id {
            1nat
        } else {
            0nat
        }
    }
}

proof fn lemma_posts_by_push(ps: Seq<PostView>, x: PostView, id: u128)
    ensures
        posts_by(ps.push(x), id).len() == posts_by(ps, id).len() + if x.author == id {
            1nat
        } else {
            0nat
        },
{
    reveal(Seq::filter);
    assert(ps.push(x).drop_last() =~= ps);
}

proof fn lemma_listed_push(us: Seq<UserView>, ps: Seq<PostView>, x: PostView)
    ensures
        listed_posts(grouped(us, ps.push(x))) == listed_posts(grouped(us, ps)) + id_count(us, x.author),
    decreases us.len(),
{
    if us.len() > 0 {
        let rest = us.drop_last();
        assert(grouped(us, ps.push(x)).drop_last() =~= grouped(rest, ps.push(x)));
        assert(grouped(us, ps).drop_last() =~= grouped(rest, ps));
        lemma_listed_push(rest, ps, x);
        lemma_posts_by_push(ps, x, us.last().id);
    }
}

proof fn lemma_id_count_none(us: Seq<UserView>, id: u128)
    requires
        forall|i: int| 0 <= i < us.len() ==> us[i].id != id,
    ensures
        id_count(us, id) == 0,
    decreases us.len(),
{
    if us.len() > 0 {
        lemma_id_count_none(us.drop_last(), id);
    }
}

proof fn lemma_id_count_one(us: Seq<UserView>, id: u128, k: int)
    requires
        distinct_ids(us),
        0 <= k < us.len(),
        us[k].id == id,
    ensures
        id_count(us, id) == 1,
    decreases us.len(),
{
    let rest = us.drop_last();
    if k == us.len() - 1 {
        assert forall|i: int| 0 <= i < rest.len() implies rest[i].id != id by {
            assert(us[i].id != us[k].id);
        }
        lemma_id_count_none(rest, id);
    } else {
        assert(us.last().id != id);
        lemma_id_count_one(rest, id, k);
    }
}

/// Under the same conditions as [`grouping_partitions_posts`], the entries
/// list as many posts in all as there are posts.
pub proof fn grouping_keeps_every_post(us: Seq<UserView>, ps: Seq<PostView>)
    requires
        distinct_ids(us),
        authors_known(us, ps),
    ensures
        listed_posts(grouped(us, ps)) == ps.len(),
    decreases ps.len(),
{
    if ps.len() == 0 {
        assert(ps =~= Seq::<PostView>::empty());
        lemma_listed_empty(us);
    } else {
        let rest = ps.drop_last();
        assert(authors_known(us, rest)) by {
            assert forall|j: int| 0 <= j < rest.len() implies has_author(us, #[trigger] rest[j]) by {
                assert(rest[j] == ps[j]);
            }
        }
        grouping_keeps_every_post(us, rest);
        assert(rest.push(ps.last()) =~= ps);
        lemma_listed_push(us, rest, ps.last());
        assert(has_author(us, ps[ps.len() - 1]));
        let k = choose|i: int| 0 <= i < us.len() && #[trigger] us[i].id == ps[ps.len() - 1].author;
        lemma_id_count_one(us, ps.last().author, k);
    }
}

proof fn lemma_listed_empty(us: Seq<UserView>)
    ensures
        listed_posts(grouped(us, Seq::empty())) == 0,
    decreases us.len(),
{
    if us.len() > 0 {
        assert(grouped(us, Seq::empty()).drop_last() =~= grouped(us.drop_last(), Seq::empty()));
        lemma_listed_empty(us.drop_last());
        reveal(Seq::filter);
    }
}

} // verus!
