//! Decisions behind the bot's smaller chat commands and events.

use crate::text::{contains_text, text_contains};
use vstd::prelude::*;
use vstd::string::*;

verus! {

/// A role of the server: its id and its name.
pub struct Role {
    pub id: u64,
    pub name: String,
}

/// The id of the first role in `roles` named `name`.
pub open spec fn first_role_named(roles: Seq<(u64, Seq<char>)>, name: Seq<char>) -> Option<u64>
    decreases roles.len(),
{
    if roles.len() == 0 {
        None
    } else if roles[0].1 == name {
        Some(roles[0].0)
    } else {
        first_role_named(roles.drop_first(), name)
    }
}

/// A role id found for a name belongs to the first role whose name is exactly
/// that name; no role is found only where no role has exactly that name.
pub proof fn law_role_found_by_exact_name(roles: Seq<(u64, Seq<char>)>, name: Seq<char>)
    ensures
        match first_role_named(roles, name) {
            Some(id) => exists|i: int|
                0 <= i < roles.len() && roles[i].0 == id && roles[i].1 == name && forall|j: int|
                    0 <= j < i ==> roles[j].1 != name,
            None => forall|i: int| 0 <= i < roles.len() ==> roles[i].1 != name,
        },
    decreases roles.len(),
{
    if roles.len() > 0 {
        law_role_found_by_exact_name(roles.drop_first(), name);
        let rest = roles.drop_first();
        if roles[0].1 != name {
            match first_role_named(rest, name) {
                Some(id) => {
                    let k = choose|k: int|
                        0 <= k < rest.len() && rest[k].0 == id && rest[k].1 == name && forall|j: int|
                            0 <= j < k ==> rest[j].1 != name;
                    assert(roles[k + 1] == rest[k]);
                    assert forall|j: int| 0 <= j < k + 1 implies roles[j].1 != name by {
                        if j > 0 {
                            assert(roles[j] == rest[j - 1]);
                        }
                    }
                },
                None => {
                    assert forall|i: int| 0 <= i < roles.len() implies roles[i].1 != name by {
                        if i > 0 {
                            assert(roles[i] == rest[i - 1]);
                        }
                    }
                },
            }
        }
    }
}

pub open spec fn role_views(roles: Seq<Role>) -> Seq<(u64, Seq<char>)> {
    roles.map_values(|r: Role| (r.id, r.name@))
}

/// The id of a role named `name`: the first such role in the order given,
/// or `None` where no role has that name.
pub fn get_role_id(roles: &Vec<Role>, name: &str) -> (r: Option<u64>)
    ensures
        r == first_role_named(role_views(roles@), name@),
{
    let ghost all = role_views(roles@);
    let wanted = String::from_str(name);
    let mut i: usize = 0;
    assert(all.skip(0) =~= all);
    while i < roles.len()
        invariant
            i <= roles.len(),
            all == role_views(roles@),
            wanted@ == name@,
            first_role_named(all, name@) == first_role_named(all.skip(i as int), name@),
        decreases roles.len() - i,
    {
        assert(all.skip(i as int)[0] == (roles@[i as int].id, roles@[i as int].name@));
        if roles[i].name == wanted {
            return Some(roles[i].id);
        }
        assert(all.skip(i as int).drop_first() =~= all.skip(i + 1));
        i = i + 1;
    }
    assert(all.skip(i as int) =~= Seq::<(u64, Seq<char>)>::empty());
    None
}

/// The name of the role that a member who joins the server is given.
pub open spec fn welcome_role_name() -> Seq<char> {
    "Friends"@
}

/// The id of the role that a member who joins the server is given: the first
/// role named `Friends`, or `None` where the server has none.
pub fn welcome_role(roles: &Vec<Role>) -> (r: Option<u64>)
    ensures
        r == first_role_named(role_views(roles@), welcome_role_name()),
{
    get_role_id(roles, "Friends")
}

/// The answer to the `down` command, given whether the game server accepted
/// a connection.
pub fn server_status_message(reachable: bool) -> (r: String)
    ensures
        reachable ==> r@ == "Louisoix is up"@,
        !reachable ==> r@ == "Louisoix is down"@,
{
    if reachable {
        String::from_str("Louisoix is up")
    } else {
        String::from_str("Louisoix is down")
    }
}

/// A post submitted by a Reddit user: its title and, for a link post, its link.
pub struct RedditPost {
    pub title: String,
    pub url: Option<String>,
}

pub open spec fn post_view(p: RedditPost) -> (Seq<char>, Option<Seq<char>>) {
    (
        p.title@,
        match p.url {
            Some(u) => Some(u@),
            None => None,
        },
    )
}

/// The title by which the weekly fashion report post is known.
pub open spec fn fashion_report_marker() -> Seq<char> {
    "Fashion Report - Full Details"@
}

/// What the `fashion` command posts, from the user's posts newest first: the
/// link of the first post whose title names the fashion report; nothing where
/// that post has no link; an empty text where no post names it.
pub open spec fn fashion_link(posts: Seq<(Seq<char>, Option<Seq<char>>)>) -> Option<Seq<char>>
    decreases posts.len(),
{
    if posts.len() == 0 {
        Some(Seq::empty())
    } else if contains_text(posts[0].0, fashion_report_marker()) {
        posts[0].1
    } else {
        fashion_link(posts.drop_first())
    }
}

/// The post chosen for the `fashion` command is the first one whose title
/// contains `Fashion Report - Full Details`: what is posted is that post's link
/// (nothing where it has none), and an empty text only where no title
/// contains those words.
pub proof fn law_fashion_link_from_first_full_details(posts: Seq<(Seq<char>, Option<Seq<char>>)>)
    ensures
        match fashion_link(posts) {
            Some(t) => (t.len() == 0 && forall|i: int|
                0 <= i < posts.len() ==> !contains_text(posts[i].0, "Fashion Report - Full Details"@))
                || exists|i: int|
                0 <= i < posts.len() && contains_text(posts[i].0, "Fashion Report - Full Details"@)
                    && posts[i].1 == Some(t) && forall|j: int|
                    0 <= j < i ==> !contains_text(posts[j].0, "Fashion Report - Full Details"@),
            None => exists|i: int|
                0 <= i < posts.len() && contains_text(posts[i].0, "Fashion Report - Full Details"@)
                    && posts[i].1 is None && forall|j: int|
                    0 <= j < i ==> !contains_text(posts[j].0, "Fashion Report - Full Details"@),
        },
    decreases posts.len(),
{
    let marker = "Fashion Report - Full Details"@;
    if posts.len() > 0 {
        let rest = posts.drop_first();
        law_fashion_link_from_first_full_details(rest);
        if !contains_text(posts[0].0, marker) {
            assert forall|j: int| 0 <= j < rest.len() implies #[trigger] posts[j + 1] == rest[j] by {}
            match fashion_link(rest) {
                Some(t) => {
                    if exists|i: int|
                        0 <= i < rest.len() && contains_text(rest[i].0, marker) && rest[i].1 == Some(t)
                            && forall|j: int| 0 <= j < i ==> !contains_text(rest[j].0, marker) {
                        let k = choose|i: int|
                            0 <= i < rest.len() && contains_text(rest[i].0, marker) && rest[i].1 == Some(t)
                                && forall|j: int| 0 <= j < i ==> !contains_text(rest[j].0, marker);
                        assert(posts[k + 1] == rest[k]);
                        assert forall|j: int| 0 <= j < k + 1 implies !contains_text(posts[j].0, marker) by {
                            if j > 0 {
                                assert(posts[j] == rest[j - 1]);
                            }
                        }
                    } else {
                        assert forall|i: int| 0 <= i < posts.len() implies !contains_text(posts[i].0, marker) by {
                            if i > 0 {
                                assert(posts[i] == rest[i - 1]);
                            }
                        }
                    }
                },
                None => {
                    let k = choose|i: int|
                        0 <= i < rest.len() && contains_text(rest[i].0, marker) && rest[i].1 is None
                            && forall|j: int| 0 <= j < i ==> !contains_text(rest[j].0, marker);
                    assert(posts[k + 1] == rest[k]);
                    assert forall|j: int| 0 <= j < k + 1 implies !contains_text(posts[j].0, marker) by {
                        if j > 0 {
                            assert(posts[j] == rest[j - 1]);
                        }
                    }
                },
            }
        } else {
            assert(fashion_report_marker() == marker);
        }
    }
}

/// Picks the fashion report link out of a Reddit user's posts: `Some` text to
/// post, or `None` to post nothing.
pub fn fashion_report_link(posts: &Vec<RedditPost>) -> (r: Option<String>)
    ensures
        match r {
            Some(t) => fashion_link(posts@.map_values(|p: RedditPost| post_view(p))) == Some(t@),
            None => fashion_link(posts@.map_values(|p: RedditPost| post_view(p))) is None,
        },
{
    let ghost all = posts@.map_values(|p: RedditPost| post_view(p));
    let mut i: usize = 0;
    assert(all.skip(0) =~= all);
    while i < posts.len()
        invariant
            i <= posts.len(),
            all == posts@.map_values(|p: RedditPost| post_view(p)),
            fashion_link(all) == fashion_link(all.skip(i as int)),
        decreases posts.len() - i,
    {
        let post = &posts[i];
        assert(all.skip(i as int)[0] == post_view(*post));
        if text_contains(post.title.as_str(), "Fashion Report - Full Details") {
            return match &post.url {
                Some(u) => Some(u.clone()),
                None => None,
            };
        }
        assert(all.skip(i as int).drop_first() =~= all.skip(i + 1));
        i = i + 1;
    }
    assert(all.skip(i as int) =~= Seq::<(Seq<char>, Option<Seq<char>>)>::empty());
    Some(String::new())
}

} // verus!
