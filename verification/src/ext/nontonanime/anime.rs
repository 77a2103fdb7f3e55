//! Anime series of the `animeku.my.id` catalogue (on-going and complete).

use vstd::prelude::*;

use super::{api_post, api_post_request, clean_text, clean_text_exec, search_payload, search_payload_exec};
use crate::json::{
    is_object, member, member_array, member_str, member_u64, member_u64_exec, text_or_null,
    text_or_null_exec, Json,
};
use crate::models::{Episode, EpisodeView, Meta, MetaView, Movie, MovieView};
use crate::request::HttpRequest;
use crate::text::{concatenate, decimal, decimal_u64, law_decimal_injective, spec_trim_char, trim_char};

verus! {

/// Address of the anime search endpoint.
pub const SEARCH_URL: &'static str =
    "https://animeku.my.id/nontonanime-v77/phalcon/api/search_category_collection/v7_1/";

/// Address of the episode list endpoint.
pub const EPISODES_URL: &'static str =
    "https://animeku.my.id/nontonanime-v77/phalcon/api/get_category_posts_secure/v9_1/";

/// The anime catalogue.
pub struct AnimeExt {}

/// The title read from a search category: its id (a channel number other
/// than 1 and 2, which are not titles), its quoted name without the quotes,
/// and its episode count ("1" when the count is not a string).
pub open spec fn anime_item(cat: Json) -> Seq<MovieView> {
    match member_u64(cat, "cid"@) {
        Some(cid) => if cid == 1 || cid == 2 {
            Seq::empty()
        } else {
            seq![
                MovieView {
                    id: decimal(cid as nat),
                    title: spec_trim_char(text_or_null(member(cat, "category_name"@)), '"'),
                    total_episodes: Some(
                        match member_str(cat, "count_anime"@) {
                            Some(s) => s,
                            None => "1"@,
                        },
                    ),
                },
            ]
        },
        None => Seq::empty(),
    }
}

/// The titles read from a list of search categories, in order.
pub open spec fn anime_items(cats: Seq<Json>) -> Seq<MovieView>
    decreases cats.len(),
{
    if cats.len() == 0 {
        Seq::empty()
    } else {
        anime_items(cats.drop_last()) + anime_item(cats.last())
    }
}

/// The titles of a search response.
pub open spec fn anime_search_titles(j: Json) -> Seq<MovieView> {
    match member_array(j, "categories"@) {
        Some(cats) => anime_items(cats),
        None => Seq::empty(),
    }
}

/// The total number of matches a search response reports (0 if none).
pub open spec fn reported_total(j: Json) -> u64 {
    match member_u64(j, "count_total"@) {
        Some(n) => n,
        None => 0,
    }
}

/// The fact `label` read from member `key` of a category, when present.
pub open spec fn fact(node: Option<Json>, label: Seq<char>, key: Seq<char>) -> Seq<(Seq<char>, Seq<char>)> {
    match node {
        Some(c) => match member(c, key) {
            Some(v) => seq![(label, clean_text(v.text@))],
            None => Seq::empty(),
        },
        None => Seq::empty(),
    }
}

/// The on-going flag of a category, as `true` or `false`, when present.
pub open spec fn ongoing_fact(node: Option<Json>) -> Seq<(Seq<char>, Seq<char>)> {
    match node {
        Some(c) => match member_u64(c, "ongoing"@) {
            Some(v) => seq![("On-Going"@, if v != 0 { "true"@ } else { "false"@ })],
            None => Seq::empty(),
        },
        None => Seq::empty(),
    }
}

/// A `category` object of an episode list response has an `ongoing` member.
pub open spec fn category_has_flag(j: Json) -> bool {
    match member(j, "category"@) {
        Some(c) => is_object(c) ==> member(c, "ongoing"@) is Some,
        None => true,
    }
}

/// Whether an episode list response can be read: its `category` object,
/// when there is one, has an `ongoing` member.
pub fn category_has_flag_exec(j: &Json) -> (b: bool)
    ensures
        b == category_has_flag(*j),
{
    match j.get("category") {
        Some(c) => !c.is_object() || c.get("ongoing").is_some(),
        None => true,
    }
}

/// The description of an episode list response.
pub open spec fn anime_meta(j: Json) -> MetaView {
    let c = member(j, "category"@);
    MetaView {
        thumb_url: match c {
            Some(c) => match member(c, "img_url"@) {
                Some(v) => Some(clean_text(v.text@)),
                None => None,
            },
            None => None,
        },
        data: fact(c, "Judul"@, "category_name"@) + fact(c, "Genre"@, "genre"@) + fact(
            c,
            "Tahun"@,
            "years"@,
        ) + fact(c, "Rating"@, "rating"@) + ongoing_fact(c),
    }
}

/// The episode read from a post: its channel number and cleaned name.
pub open spec fn anime_episode(post: Json) -> Seq<EpisodeView> {
    match member_u64(post, "channel_id"@) {
        Some(cid) => seq![
            EpisodeView {
                id: decimal(cid as nat),
                title: clean_text(text_or_null(member(post, "channel_name"@))),
                is_series: true,
            },
        ],
        None => Seq::empty(),
    }
}

/// The episodes read from a list of posts, in order.
pub open spec fn anime_episodes(posts: Seq<Json>) -> Seq<EpisodeView>
    decreases posts.len(),
{
    if posts.len() == 0 {
        Seq::empty()
    } else {
        anime_episodes(posts.drop_last()) + anime_episode(posts.last())
    }
}

/// The episodes of an episode list response.
pub open spec fn anime_episode_list(j: Json) -> Seq<EpisodeView> {
    match member_array(j, "posts"@) {
        Some(posts) => anime_episodes(posts),
        None => Seq::empty(),
    }
}

/// A post with a channel number also carries a category number, under the
/// member `category_id,` (the key the catalogue's answers are read with).
pub open spec fn post_has_category(post: Json) -> bool {
    member_u64(post, "channel_id"@) is Some ==> member_u64(post, "category_id,"@) is Some
}

/// Every post of an episode list response that has a channel number also
/// has a category number.
pub open spec fn posts_have_category(j: Json) -> bool {
    match member_array(j, "posts"@) {
        Some(posts) => forall|i: int| 0 <= i < posts.len() ==> #[trigger] post_has_category(posts[i]),
        None => true,
    }
}

/// Whether every post of an episode list response that has a channel
/// number also has a category number.
pub fn posts_have_category_exec(j: &Json) -> (b: bool)
    ensures
        b == posts_have_category(*j),
{
    if let Some(pv) = j.get("posts") {
        if let Some(posts) = pv.as_array() {
            let n = posts.len();
            for i in 0..n
                invariant
                    n == posts@.len(),
                    member_array(*j, "posts"@) == Some(posts@),
                    forall|k: int| 0 <= k < i ==> #[trigger] post_has_category(posts@[k]),
            {
                let post = &posts[i];
                let channel = member_u64_exec(post, "channel_id");
                let category = member_u64_exec(post, "category_id,");
                if channel.is_some() && category.is_none() {
                    let ghost ps = member_array(*j, "posts"@)->Some_0;
                    assert(!post_has_category(ps[i as int]));
                    return false;
                }
            }
        }
    }
    true
}

/// The form body that asks for the episodes of a title.
pub open spec fn episodes_payload(id: Seq<char>) -> Seq<char> {
    "id="@ + id + "&isAPKvalid=true"@
}

/// Appends the fact `label` from member `key` of `node`.
pub fn push_fact(data: &mut Vec<(String, String)>, node: Option<&Json>, label: &str, key: &str)
    ensures
        final(data).deep_view() == old(data).deep_view() + fact(
            match node {
                Some(c) => Some(*c),
                None => None,
            },
            label@,
            key@,
        ),
{
    let ghost before = data.deep_view();
    if let Some(c) = node {
        if let Some(v) = c.get(key) {
            let text = clean_text_exec(v.text.as_str());
            data.push((label.to_owned(), text));
        }
    }
    assert(data.deep_view() =~= before + fact(
        match node {
            Some(c) => Some(*c),
            None => None,
        },
        label@,
        key@,
    ));
}

impl AnimeExt {
    /// The anime catalogue.
    pub fn new() -> AnimeExt {
        AnimeExt {  }
    }

    /// The request of a search for `title`, result page `page`.
    pub fn search_request(&self, title: &str, page: usize) -> (r: HttpRequest)
        ensures
            r@ == api_post(SEARCH_URL@, search_payload(title@, page as nat), false),
    {
        let payload = search_payload_exec(title, page);
        api_post_request(SEARCH_URL, payload, false)
    }

    /// The titles and reported total of a search response.
    pub fn search_response(&self, j: &Json) -> (r: (Vec<Movie>, u64))
        ensures
            r.0.deep_view() == anime_search_titles(*j),
            r.1 == reported_total(*j),
    {
        let mut items: Vec<Movie> = Vec::new();
        if let Some(cv) = j.get("categories") {
            if let Some(cats) = cv.as_array() {
                let n = cats.len();
                for i in 0..n
                    invariant
                        n == cats@.len(),
                        items.deep_view() == anime_items(cats@.take(i as int)),
                {
                    let cat = &cats[i];
                    assert(cats@.take(i + 1).drop_last() =~= cats@.take(i as int));
                    let ghost before = items.deep_view();
                    if let Some(cid) = member_u64_exec(cat, "cid") {
                        if cid != 1 && cid != 2 {
                            let name = text_or_null_exec(cat.get("category_name"));
                            let title = trim_char(name.as_str(), '"');
                            let count = match cat.get("count_anime") {
                                Some(c) => match c.as_str() {
                                    Some(s) => s.clone(),
                                    None => "1".to_owned(),
                                },
                                None => "1".to_owned(),
                            };
                            items.push(
                                Movie { id: decimal_u64(cid), title, total_episodes: Some(count) },
                            );
                        }
                    }
                    assert(items.deep_view() =~= before + anime_item(cats@[i as int]));
                }
                assert(cats@.take(n as int) =~= cats@);
            }
        }
        let total = match member_u64_exec(j, "count_total") {
            Some(t) => t,
            None => 0,
        };
        (items, total)
    }

    /// The request for the episodes of `movie`.
    pub fn episodes_request(&self, movie: &Movie) -> (r: HttpRequest)
        ensures
            r@ == api_post(EPISODES_URL@, episodes_payload(movie.id@), false),
    {
        let a = concatenate("id=", movie.id.as_str());
        let payload = concatenate(a.as_str(), "&isAPKvalid=true");
        assert(payload@ =~= episodes_payload(movie.id@));
        api_post_request(EPISODES_URL, payload, false)
    }

    /// The episodes and description of an episode list response. Left out
    /// are a `category` object without an `ongoing` member, whose flag is
    /// read by a lookup that fails when the member is missing, and a post
    /// with a channel number but no category number, which is unwrapped.
    pub fn episodes_response(&self, j: &Json) -> (r: (Vec<Episode>, Meta))
        requires
            category_has_flag(*j),
            posts_have_category(*j),
        ensures
            r.0.deep_view() == anime_episode_list(*j),
            r.1@ == anime_meta(*j),
    {
        let mut meta = Meta::empty();
        let c = j.get("category");
        let ghost cv = match c {
            Some(x) => Some(*x),
            None => None::<Json>,
        };
        assert(cv == member(*j, "category"@));
        if let Some(cat) = c {
            if let Some(v) = cat.get("img_url") {
                meta.thumb_url = Some(clean_text_exec(v.text.as_str()));
            }
        }
        assert(meta.data.deep_view() =~= Seq::<(Seq<char>, Seq<char>)>::empty());
        push_fact(&mut meta.data, c, "Judul", "category_name");
        push_fact(&mut meta.data, c, "Genre", "genre");
        push_fact(&mut meta.data, c, "Tahun", "years");
        push_fact(&mut meta.data, c, "Rating", "rating");
        let ghost before = meta.data.deep_view();
        if let Some(cat) = c {
            if let Some(v) = member_u64_exec(cat, "ongoing") {
                let flag = if v != 0 {
                    "true".to_owned()
                } else {
                    "false".to_owned()
                };
                meta.data.push(("On-Going".to_owned(), flag));
            }
        }
        assert(meta.data.deep_view() =~= before + ongoing_fact(cv));
        assert(meta@ == anime_meta(*j));
        let mut episodes: Vec<Episode> = Vec::new();
        if let Some(pv) = j.get("posts") {
            if let Some(posts) = pv.as_array() {
                let n = posts.len();
                for i in 0..n
                    invariant
                        n == posts@.len(),
                        episodes.deep_view() == anime_episodes(posts@.take(i as int)),
                {
                    let post = &posts[i];
                    assert(posts@.take(i + 1).drop_last() =~= posts@.take(i as int));
                    let ghost before = episodes.deep_view();
                    if let Some(cid) = member_u64_exec(post, "channel_id") {
                        let name = text_or_null_exec(post.get("channel_name"));
                        let title = clean_text_exec(name.as_str());
                        episodes.push(Episode { id: decimal_u64(cid), title, is_series: true });
                    }
                    assert(episodes.deep_view() =~= before + anime_episode(posts@[i as int]));
                }
                assert(posts@.take(n as int) =~= posts@);
            }
        }
        (episodes, meta)
    }
}

/// No anime title has the id of a menu navigation entry ("1" or "2"):
/// channels 1 and 2 are skipped and other channel numbers render otherwise.
pub proof fn law_titles_not_navigation(cats: Seq<Json>)
    ensures
        forall|i: int|
            0 <= i < anime_items(cats).len() ==> (#[trigger] anime_items(cats)[i]).id != "1"@
                && anime_items(cats)[i].id != "2"@,
    decreases cats.len(),
{
    reveal_strlit("1");
    reveal_strlit("2");
    if cats.len() > 0 {
        law_titles_not_navigation(cats.drop_last());
        let prev = anime_items(cats.drop_last());
        let last = anime_item(cats.last());
        assert(anime_items(cats) == prev + last);
        if let Some(cid) = member_u64(cats.last(), "cid"@) {
            if cid != 1 && cid != 2 {
                law_decimal_injective(cid as nat, 1);
                law_decimal_injective(cid as nat, 2);
                assert(decimal(1) =~= "1"@);
                assert(decimal(2) =~= "2"@);
            }
        }
        assert forall|i: int| 0 <= i < anime_items(cats).len() implies (#[trigger] anime_items(
            cats,
        )[i]).id != "1"@ && anime_items(cats)[i].id != "2"@ by {
            if i < prev.len() {
                assert(anime_items(cats)[i] == prev[i]);
            } else {
                assert(anime_items(cats)[i] == last[i - prev.len()]);
            }
        }
    }
}


/// The titles of an anime search are read category by category, in order:
/// those of two runs of categories are those of the first followed by those
/// of the second. A category with a channel number other than 1 and 2 gives
/// one title: that number in decimal as id, its quoted name without the
/// quotes, and its episode count (`1` when the count is not a string); any
/// other category gives none.
pub proof fn law_anime_items(a: Seq<Json>, b: Seq<Json>, cat: Json)
    ensures
        anime_items(a + b) == anime_items(a) + anime_items(b),
        anime_items(seq![cat]) == match member_u64(cat, "cid"@) {
            Some(cid) => if cid == 1 || cid == 2 {
                Seq::<MovieView>::empty()
            } else {
                seq![
                    MovieView {
                        id: decimal(cid as nat),
                        title: spec_trim_char(text_or_null(member(cat, "category_name"@)), '"'),
                        total_episodes: Some(
                            match member_str(cat, "count_anime"@) {
                                Some(s) => s,
                                None => "1"@,
                            },
                        ),
                    },
                ]
            },
            None => Seq::<MovieView>::empty(),
        },
    decreases b.len(),
{
    assert(seq![cat].drop_last() =~= Seq::<Json>::empty());
    assert(anime_items(seq![cat].drop_last()) =~= Seq::<MovieView>::empty());
    assert(seq![cat].last() == cat);
    assert(anime_items(seq![cat]) =~= anime_item(cat));
    if b.len() == 0 {
        assert(a + b =~= a);
    } else {
        law_anime_items(a, b.drop_last(), cat);
        assert((a + b).drop_last() =~= a + b.drop_last());
        assert((a + b).last() == b.last());
    }
}

/// The episodes of an anime are read post by post, in order: those of two
/// runs of posts are those of the first followed by those of the second. A
/// post with a channel number gives one episode of a series: that number in
/// decimal as id and its cleaned name; any other post gives none. So a list
/// with `k` posts with a channel number gives `k` episodes.
pub proof fn law_anime_episodes(a: Seq<Json>, b: Seq<Json>, post: Json)
    ensures
        anime_episodes(a + b) == anime_episodes(a) + anime_episodes(b),
        anime_episodes(seq![post]) == match member_u64(post, "channel_id"@) {
            Some(cid) => seq![
                EpisodeView {
                    id: decimal(cid as nat),
                    title: clean_text(text_or_null(member(post, "channel_name"@))),
                    is_series: true,
                },
            ],
            None => Seq::<EpisodeView>::empty(),
        },
    decreases b.len(),
{
    assert(seq![post].drop_last() =~= Seq::<Json>::empty());
    assert(anime_episodes(seq![post].drop_last()) =~= Seq::<EpisodeView>::empty());
    assert(seq![post].last() == post);
    assert(anime_episodes(seq![post]) =~= anime_episode(post));
    if b.len() == 0 {
        assert(a + b =~= a);
    } else {
        law_anime_episodes(a, b.drop_last(), post);
        assert((a + b).drop_last() =~= a + b.drop_last());
        assert((a + b).last() == b.last());
    }
}

/// The description of an anime: with a `category`, its poster is the
/// cleaned `img_url`, and its facts are, in this order and each exactly
/// when its member is there, the title (`Judul`), the genre (`Genre`), the
/// year (`Tahun`), the rating (`Rating`), each cleaned, and the on-going
/// flag (`On-Going`, `true` unless it is 0); without a `category` there is
/// no poster and no fact.
pub proof fn law_anime_description(j: Json)
    ensures
        ({
            let meta = anime_meta(j);
            match member(j, "category"@) {
                None => meta.thumb_url is None && meta.data.len() == 0,
                Some(c) => {
                    let n0: int = if member(c, "category_name"@) is Some {
                        1
                    } else {
                        0
                    };
                    let n1: int = n0 + if member(c, "genre"@) is Some {
                        1int
                    } else {
                        0int
                    };
                    let n2: int = n1 + if member(c, "years"@) is Some {
                        1int
                    } else {
                        0int
                    };
                    let n3: int = n2 + if member(c, "rating"@) is Some {
                        1int
                    } else {
                        0int
                    };
                    &&& meta.thumb_url == match member(c, "img_url"@) {
                        Some(v) => Some(clean_text(v.text@)),
                        None => None,
                    }
                    &&& meta.data.len() == n3 + if member_u64(c, "ongoing"@) is Some {
                        1int
                    } else {
                        0int
                    }
                    &&& (member(c, "category_name"@) matches Some(v) ==> meta.data[0] == (
                        "Judul"@,
                        clean_text(v.text@),
                    ))
                    &&& (member(c, "genre"@) matches Some(v) ==> meta.data[n0] == (
                        "Genre"@,
                        clean_text(v.text@),
                    ))
                    &&& (member(c, "years"@) matches Some(v) ==> meta.data[n1] == (
                        "Tahun"@,
                        clean_text(v.text@),
                    ))
                    &&& (member(c, "rating"@) matches Some(v) ==> meta.data[n2] == (
                        "Rating"@,
                        clean_text(v.text@),
                    ))
                    &&& (member_u64(c, "ongoing"@) matches Some(v) ==> meta.data[n3] == (
                        "On-Going"@,
                        if v != 0 {
                            "true"@
                        } else {
                            "false"@
                        },
                    ))
                },
            }
        }),
{
    let c = member(j, "category"@);
    let f0 = fact(c, "Judul"@, "category_name"@);
    let f1 = fact(c, "Genre"@, "genre"@);
    let f2 = fact(c, "Tahun"@, "years"@);
    let f3 = fact(c, "Rating"@, "rating"@);
    let f4 = ongoing_fact(c);
    let d = anime_meta(j).data;
    assert(d == f0 + f1 + f2 + f3 + f4);
    if c is Some {
        if f1.len() > 0 {
            assert(d[f0.len() as int] == f1[0]);
        }
        if f2.len() > 0 {
            assert(d[(f0.len() + f1.len()) as int] == f2[0]);
        }
        if f3.len() > 0 {
            assert(d[(f0.len() + f1.len() + f2.len()) as int] == f3[0]);
        }
        if f4.len() > 0 {
            assert(d[(f0.len() + f1.len() + f2.len() + f3.len()) as int] == f4[0]);
        }
    }
}

} // verus!
