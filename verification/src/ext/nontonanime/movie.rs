//! Films of the `animeku.my.id` catalogue (live action, Asian and anime
//! films). A search remembers each film's description, which the episode
//! step then returns.

use vstd::prelude::*;

use super::anime::{fact, push_fact};
use super::{api_post, api_post_request, clean_text, clean_text_exec, search_payload, search_payload_exec};
use crate::cache::Cache;
use crate::json::{member, member_array, member_u64, member_u64_exec, text_or_null, text_or_null_exec, Json};
use crate::models::{Episode, EpisodeView, Meta, MetaView, Movie, MovieView};
use crate::request::HttpRequest;
use crate::text::{decimal, decimal_u64};

verus! {

/// Address of the film search endpoint.
pub const SEARCH_URL: &'static str =
    "https://animeku.my.id/nontonanime-v77/phalcon/api/search_anime_movie/v7_1/";

/// The film catalogue, with the descriptions its searches returned, by
/// film id.
pub struct MovieExt {
    metadata: Cache<Meta>,
}

/// The views of the stored descriptions.
pub open spec fn meta_views(m: Map<Seq<char>, Meta>) -> Map<Seq<char>, MetaView> {
    m.map_values(|x: Meta| x@)
}

/// The film read from a search post: its channel number and cleaned name.
pub open spec fn film_item(post: Json) -> Seq<MovieView> {
    match member_u64(post, "channel_id"@) {
        Some(cid) => seq![
            MovieView {
                id: decimal(cid as nat),
                title: clean_text(text_or_null(member(post, "channel_name"@))),
                total_episodes: None,
            },
        ],
        None => Seq::empty(),
    }
}

/// The description of a film read from its search post.
pub open spec fn film_meta(post: Json) -> MetaView {
    let p = Some(post);
    MetaView {
        thumb_url: match member(post, "img_url"@) {
            Some(v) => Some(clean_text(v.text@)),
            None => None,
        },
        data: fact(p, "Judul"@, "channel_name"@) + fact(p, "Language"@, "lamg"@) + fact(
            p,
            "Rating"@,
            "rating"@,
        ) + fact(p, "years"@, "years"@),
    }
}

/// The films read from a list of posts, in order.
pub open spec fn film_items(posts: Seq<Json>) -> Seq<MovieView>
    decreases posts.len(),
{
    if posts.len() == 0 {
        Seq::empty()
    } else {
        film_items(posts.drop_last()) + film_item(posts.last())
    }
}

/// The stored descriptions after reading `posts`: each post with a channel
/// number stores its description under that number.
pub open spec fn film_metadata(m: Map<Seq<char>, MetaView>, posts: Seq<Json>) -> Map<
    Seq<char>,
    MetaView,
>
    decreases posts.len(),
{
    if posts.len() == 0 {
        m
    } else {
        let prev = film_metadata(m, posts.drop_last());
        match member_u64(posts.last(), "channel_id"@) {
            Some(cid) => prev.insert(decimal(cid as nat), film_meta(posts.last())),
            None => prev,
        }
    }
}

/// The posts of a search response.
pub open spec fn film_posts(j: Json) -> Seq<Json> {
    match member_array(j, "posts"@) {
        Some(posts) => posts,
        None => Seq::empty(),
    }
}

/// Reads the description of a film from its search post.
fn film_meta_exec(post: &Json) -> (r: Meta)
    ensures
        r@ == film_meta(*post),
{
    let mut meta = Meta::empty();
    if let Some(v) = post.get("img_url") {
        meta.thumb_url = Some(clean_text_exec(v.text.as_str()));
    }
    assert(meta.data.deep_view() =~= Seq::<(Seq<char>, Seq<char>)>::empty());
    push_fact(&mut meta.data, Some(post), "Judul", "channel_name");
    push_fact(&mut meta.data, Some(post), "Language", "lamg");
    push_fact(&mut meta.data, Some(post), "Rating", "rating");
    push_fact(&mut meta.data, Some(post), "years", "years");
    assert(meta@ =~= film_meta(*post));
    meta
}

impl MovieExt {
    /// The film catalogue, with no descriptions yet.
    pub fn new() -> (r: MovieExt)
        ensures
            r.metadata_view() == Map::<Seq<char>, MetaView>::empty(),
    {
        let r = MovieExt { metadata: Cache::new() };
        assert(meta_views(r.metadata.view()) =~= Map::<Seq<char>, MetaView>::empty());
        r
    }

    /// The stored descriptions, by film id.
    pub closed spec fn metadata_view(&self) -> Map<Seq<char>, MetaView> {
        meta_views(self.metadata.view())
    }

    /// The request of a search for `title`, result page `page`.
    pub fn search_request(&self, title: &str, page: usize) -> (r: HttpRequest)
        ensures
            r@ == api_post(SEARCH_URL@, search_payload(title@, page as nat), true),
    {
        let payload = search_payload_exec(title, page);
        api_post_request(SEARCH_URL, payload, true)
    }

    /// The films of a search response and their number; each film's
    /// description is stored under its id.
    pub fn search_response(&mut self, j: &Json) -> (r: (Vec<Movie>, u64))
        ensures
            r.0.deep_view() == film_items(film_posts(*j)),
            r.1 == r.0.len(),
            final(self).metadata_view() == film_metadata(old(self).metadata_view(), film_posts(*j)),
    {
        let mut items: Vec<Movie> = Vec::new();
        let ghost m0 = self.metadata_view();
        match j.get("posts") {
            Some(pv) => match pv.as_array() {
                Some(posts) => {
                    let n = posts.len();
                    assert(posts@.take(0) =~= Seq::<Json>::empty());
                    for i in 0..n
                        invariant
                            n == posts@.len(),
                            items.deep_view() == film_items(posts@.take(i as int)),
                            self.metadata_view() == film_metadata(m0, posts@.take(i as int)),
                    {
                        let post = &posts[i];
                        assert(posts@.take(i + 1).drop_last() =~= posts@.take(i as int));
                        let ghost before = items.deep_view();
                        if let Some(cid) = member_u64_exec(post, "channel_id") {
                            let meta = film_meta_exec(post);
                            let key = decimal_u64(cid);
                            let ghost mv = meta@;
                            let ghost old_map = self.metadata.view();
                            self.metadata.insert(key, meta);
                            assert(meta_views(self.metadata.view()) =~= meta_views(old_map).insert(
                                decimal(cid as nat),
                                mv,
                            ));
                            let name = text_or_null_exec(post.get("channel_name"));
                            let title = clean_text_exec(name.as_str());
                            items.push(
                                Movie { id: decimal_u64(cid), title, total_episodes: None },
                            );
                        }
                        assert(items.deep_view() =~= before + film_item(posts@[i as int]));
                    }
                    assert(posts@.take(n as int) =~= posts@);
                },
                None => {
                },
            },
            None => {
            },
        }
        let total = items.len() as u64;
        (items, total)
    }

    /// The single episode of a film (the film itself) and the description
    /// its search stored, or an empty one.
    pub fn get_episodes(&self, movie: &Movie) -> (r: (Vec<Episode>, Meta))
        ensures
            r.0.deep_view() == seq![
                EpisodeView { id: movie.id@, title: movie.title@, is_series: false },
            ],
            r.1@ == (if self.metadata_view().dom().contains(movie.id@) {
                self.metadata_view()[movie.id@]
            } else {
                MetaView { thumb_url: None, data: Seq::empty() }
            }),
    {
        let mut episodes: Vec<Episode> = Vec::new();
        episodes.push(
            Episode { id: movie.id.clone(), title: movie.title.clone(), is_series: false },
        );
        assert(episodes.deep_view() =~= seq![
            EpisodeView { id: movie.id@, title: movie.title@, is_series: false },
        ]);
        let meta = match self.metadata.get(movie.id.as_str()) {
            Some(m) => m.clone(),
            None => {
                let m = Meta::empty();
                assert(m@.data =~= Seq::<(Seq<char>, Seq<char>)>::empty());
                m
            },
        };
        (episodes, meta)
    }
}

/// After a search, the description stored for a film is the one of the last
/// post with its channel number.
pub proof fn law_film_meta_of_last_post(m: Map<Seq<char>, MetaView>, posts: Seq<Json>)
    requires
        posts.len() > 0,
    ensures
        member_u64(posts.last(), "channel_id"@) matches Some(cid) ==> film_metadata(m, posts)[decimal(
            cid as nat,
        )] == film_meta(posts.last()),
{
}


/// The films of a search are read post by post, in order: those of two runs
/// of posts are those of the first followed by those of the second. A post
/// with a channel number gives one film: that number in decimal as id and
/// its cleaned name; any other post gives none. So a list with `k` posts
/// with a channel number gives `k` films.
pub proof fn law_film_items(a: Seq<Json>, b: Seq<Json>, post: Json)
    ensures
        film_items(a + b) == film_items(a) + film_items(b),
        film_items(seq![post]) == match member_u64(post, "channel_id"@) {
            Some(cid) => seq![
                MovieView {
                    id: decimal(cid as nat),
                    title: clean_text(text_or_null(member(post, "channel_name"@))),
                    total_episodes: None,
                },
            ],
            None => Seq::<MovieView>::empty(),
        },
    decreases b.len(),
{
    assert(seq![post].drop_last() =~= Seq::<Json>::empty());
    assert(film_items(seq![post].drop_last()) =~= Seq::<MovieView>::empty());
    assert(seq![post].last() == post);
    assert(film_items(seq![post]) =~= film_item(post));
    if b.len() == 0 {
        assert(a + b =~= a);
    } else {
        law_film_items(a, b.drop_last(), post);
        assert((a + b).drop_last() =~= a + b.drop_last());
        assert((a + b).last() == b.last());
    }
}

/// The descriptions a search stores are stored post by post, in order:
/// reading two runs of posts stores what the first stores, then what the
/// second stores on top of it. A post with a channel number stores its
/// description under that number in decimal, replacing what was there; any
/// other post stores nothing.
pub proof fn law_film_metadata(m: Map<Seq<char>, MetaView>, a: Seq<Json>, b: Seq<Json>, post: Json)
    ensures
        film_metadata(m, a + b) == film_metadata(film_metadata(m, a), b),
        film_metadata(m, seq![post]) == match member_u64(post, "channel_id"@) {
            Some(cid) => m.insert(decimal(cid as nat), film_meta(post)),
            None => m,
        },
    decreases b.len(),
{
    assert(seq![post].drop_last() =~= Seq::<Json>::empty());
    assert(film_metadata(m, seq![post].drop_last()) == m);
    assert(seq![post].last() == post);
    if b.len() == 0 {
        assert(a + b =~= a);
    } else {
        law_film_metadata(m, a, b.drop_last(), post);
        assert((a + b).drop_last() =~= a + b.drop_last());
        assert((a + b).last() == b.last());
    }
}

/// The description of a film: its poster is the cleaned `img_url`, and its
/// facts are, in this order and each exactly when its member is there, the
/// title (`Judul`, from `channel_name`), the language (`Language`, from
/// `lamg`), the rating (`Rating`) and the year (`years`), each cleaned.
pub proof fn law_film_description(post: Json)
    ensures
        ({
            let meta = film_meta(post);
            let n0: int = if member(post, "channel_name"@) is Some {
                1
            } else {
                0
            };
            let n1: int = n0 + if member(post, "lamg"@) is Some {
                1int
            } else {
                0int
            };
            let n2: int = n1 + if member(post, "rating"@) is Some {
                1int
            } else {
                0int
            };
            &&& meta.thumb_url == match member(post, "img_url"@) {
                Some(v) => Some(clean_text(v.text@)),
                None => None,
            }
            &&& meta.data.len() == n2 + if member(post, "years"@) is Some {
                1int
            } else {
                0int
            }
            &&& (member(post, "channel_name"@) matches Some(v) ==> meta.data[0] == (
                "Judul"@,
                clean_text(v.text@),
            ))
            &&& (member(post, "lamg"@) matches Some(v) ==> meta.data[n0] == (
                "Language"@,
                clean_text(v.text@),
            ))
            &&& (member(post, "rating"@) matches Some(v) ==> meta.data[n1] == (
                "Rating"@,
                clean_text(v.text@),
            ))
            &&& (member(post, "years"@) matches Some(v) ==> meta.data[n2] == (
                "years"@,
                clean_text(v.text@),
            ))
        }),
{
    let p = Some(post);
    let f0 = fact(p, "Judul"@, "channel_name"@);
    let f1 = fact(p, "Language"@, "lamg"@);
    let f2 = fact(p, "Rating"@, "rating"@);
    let f3 = fact(p, "years"@, "years"@);
    let d = film_meta(post).data;
    assert(d == f0 + f1 + f2 + f3);
    if f1.len() > 0 {
        assert(d[f0.len() as int] == f1[0]);
    }
    if f2.len() > 0 {
        assert(d[(f0.len() + f1.len()) as int] == f2[0]);
    }
    if f3.len() > 0 {
        assert(d[(f0.len() + f1.len() + f2.len()) as int] == f3[0]);
    }
}

} // verus!
