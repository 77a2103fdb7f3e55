//! The session with a catalogue: paging through search results, listing
//! the episodes of a title and the links of an episode. Every answer of the
//! catalogue is remembered, so a page, a title or an episode is asked for
//! at most once.

use vstd::prelude::*;

use crate::bindings::{spec_to_lowercase, to_lowercase};
use crate::cache::Cache;
use crate::ext::Extractor;
use crate::models::{Episode, EpisodeView, Meta, MetaView, Movie, MovieView, Stream, StreamView};
use crate::text::{concatenate, contains, decimal, decimal_usize, law_decimal_injective, spec_contains};

verus! {

/// The client state: the chosen catalogue and what it already answered.
pub struct AnimekuCli {
    movie_cache: Cache<Vec<Movie>>,
    episode_cache: Cache<(Vec<Episode>, Meta)>,
    stream_cache: Cache<Vec<Stream>>,
    extractor: Extractor,
}

/// Where a search stands: the result page shown, and whether the last page
/// has been seen.
pub struct SearchState {
    pub page: usize,
    pub is_latest: bool,
}

/// What a search needs next.
pub enum SearchStep {
    /// Ask the catalogue for this result page, then store it.
    Fetch(usize),
    /// Let the user choose from these entries.
    Choose(Vec<Movie>),
    /// The first page is empty: nothing matches.
    NotFound,
}

/// The mathematical value of a [`SearchStep`].
pub enum SearchStepView {
    Fetch(nat),
    Choose(Seq<MovieView>),
    NotFound,
}

impl View for SearchStep {
    type V = SearchStepView;

    open spec fn view(&self) -> SearchStepView {
        match self {
            SearchStep::Fetch(p) => SearchStepView::Fetch(*p as nat),
            SearchStep::Choose(v) => SearchStepView::Choose(v.deep_view()),
            SearchStep::NotFound => SearchStepView::NotFound,
        }
    }
}

/// The menu entry that goes back to the previous result page.
pub open spec fn previous_entry(page: nat) -> MovieView {
    MovieView {
        id: "1"@,
        title: "Sebelumnnya (Halaman "@ + decimal((page - 1) as nat) + ")"@,
        total_episodes: None,
    }
}

/// The menu entry that goes on to the next result page.
pub open spec fn next_entry(page: nat) -> MovieView {
    MovieView {
        id: "2"@,
        title: "Selanjutnya (Halaman "@ + decimal(page + 1) + ")"@,
        total_episodes: None,
    }
}

/// The menu of a result page: its titles, then a way back unless this is
/// the first page, then a way on unless the last page has been seen.
pub open spec fn search_menu(titles: Seq<MovieView>, page: nat, is_latest: bool) -> Seq<MovieView> {
    titles + (if page > 1 {
        seq![previous_entry(page)]
    } else {
        Seq::empty()
    }) + (if !is_latest {
        seq![next_entry(page)]
    } else {
        Seq::empty()
    })
}

/// The next step of a search from `page`, with the state it leaves: fetch a
/// page not yet stored; show a stored page that has titles; step back from
/// an empty page (the one before it is then the last); report an empty
/// first page.
pub open spec fn search_outcome(pages: Map<Seq<char>, Seq<MovieView>>, page: nat, is_latest: bool) -> (
    SearchStepView,
    nat,
    bool,
)
    decreases page,
{
    if !pages.dom().contains(decimal(page)) {
        (SearchStepView::Fetch(page), page, is_latest)
    } else if pages[decimal(page)].len() == 0 {
        if page <= 1 {
            (SearchStepView::NotFound, page, is_latest)
        } else {
            search_outcome(pages, (page - 1) as nat, true)
        }
    } else {
        (
            SearchStepView::Choose(search_menu(pages[decimal(page)], page, is_latest)),
            page,
            is_latest,
        )
    }
}

/// The page after choosing entry `id` on page `page`: "1" goes back, "2"
/// goes on, any other entry stays.
pub open spec fn page_after_choice(page: nat, id: Seq<char>) -> nat {
    if id == "1"@ {
        (page - 1) as nat
    } else if id == "2"@ {
        page + 1
    } else {
        page
    }
}

/// Some fact of a description is about episodes (its label, in lower case,
/// contains `episode`).
pub open spec fn mentions_episodes(facts: Seq<(Seq<char>, Seq<char>)>) -> bool {
    exists|i: int|
        0 <= i < facts.len() && spec_contains(spec_to_lowercase(#[trigger] facts[i].0), "episode"@)
}

/// The facts shown for a title: those of its description, then its
/// episode count unless a fact is already about episodes.
pub open spec fn shown_facts(episodes: Seq<EpisodeView>, meta: MetaView) -> Seq<(Seq<char>, Seq<char>)> {
    if mentions_episodes(meta.data) {
        meta.data
    } else {
        meta.data.push(("Episodes"@, decimal(episodes.len())))
    }
}

/// What is shown for a title with episodes.
pub struct EpisodeListing {
    pub episodes: Vec<Episode>,
    pub thumb_url: Option<String>,
    pub facts: Vec<(String, String)>,
}

/// What showing the episodes of a title needs next.
pub enum EpisodeStep {
    /// Ask the catalogue for the title's episodes, then store them.
    Fetch,
    /// The stored title has no episodes.
    NoEpisodes,
    /// Show this listing.
    Show(EpisodeListing),
}

/// What showing the links of an episode needs next.
pub enum StreamStep {
    /// Ask the catalogue for the episode's links, then store them.
    Fetch,
    /// The stored episode has no links.
    NoLinks,
    /// Let the user choose from these links.
    Show(Vec<Stream>),
}

/// `l` is what is shown for a title with episodes `eps` and description
/// `meta`.
pub open spec fn listing_shows(l: EpisodeListing, eps: Seq<EpisodeView>, meta: MetaView) -> bool {
    &&& eps.len() > 0
    &&& l.episodes.deep_view() == eps
    &&& l.thumb_url.deep_view() == meta.thumb_url
    &&& l.facts.deep_view() == shown_facts(eps, meta)
}

impl AnimekuCli {
    /// The stored result pages, by page number in decimal.
    pub closed spec fn pages(&self) -> Map<Seq<char>, Seq<MovieView>> {
        self.movie_cache@.map_values(|v: Vec<Movie>| v.deep_view())
    }

    /// The stored episode lists and descriptions, by title id.
    pub closed spec fn episode_lists(&self) -> Map<Seq<char>, (Seq<EpisodeView>, MetaView)> {
        self.episode_cache@.map_values(|v: (Vec<Episode>, Meta)| (v.0.deep_view(), v.1@))
    }

    /// The stored link lists, by episode id.
    pub closed spec fn stream_lists(&self) -> Map<Seq<char>, Seq<StreamView>> {
        self.stream_cache@.map_values(|v: Vec<Stream>| v.deep_view())
    }

    /// The catalogue this client asks.
    pub closed spec fn catalogue(&self) -> Extractor {
        self.extractor
    }

    /// The catalogue this client asks.
    pub fn extractor(&self) -> (r: &Extractor)
        ensures
            *r == self.catalogue(),
    {
        &self.extractor
    }

    /// The catalogue this client asks, for a step that updates it.
    pub fn extractor_mut(&mut self) -> (r: &mut Extractor)
        ensures
            *r == old(self).catalogue(),
            final(self).catalogue() == *final(r),
            final(self).pages() == old(self).pages(),
            final(self).episode_lists() == old(self).episode_lists(),
            final(self).stream_lists() == old(self).stream_lists(),
    {
        &mut self.extractor
    }

    /// A client for `extractor` that has stored nothing yet.
    pub fn new(extractor: Extractor) -> (r: AnimekuCli)
        ensures
            r.catalogue() == extractor,
            r.pages() == Map::<Seq<char>, Seq<MovieView>>::empty(),
            r.episode_lists() == Map::<Seq<char>, (Seq<EpisodeView>, MetaView)>::empty(),
            r.stream_lists() == Map::<Seq<char>, Seq<StreamView>>::empty(),
    {
        let r = AnimekuCli {
            movie_cache: Cache::new(),
            episode_cache: Cache::new(),
            stream_cache: Cache::new(),
            extractor,
        };
        assert(r.pages() =~= Map::<Seq<char>, Seq<MovieView>>::empty());
        assert(r.episode_lists() =~= Map::<Seq<char>, (Seq<EpisodeView>, MetaView)>::empty());
        assert(r.stream_lists() =~= Map::<Seq<char>, Seq<StreamView>>::empty());
        r
    }

    /// A search starts on the first page, with the last page not yet seen.
    pub fn search_start() -> (r: SearchState)
        ensures
            r.page == 1,
            !r.is_latest,
    {
        SearchState { page: 1, is_latest: false }
    }

    /// The next step of the search in `state`. An empty page 0 (reached by
    /// choosing a title whose id is "1" on the first page) is left out: the
    /// step back from it is below the first page; so is the last `usize`
    /// page while the last page is unseen, whose successor does not exist.
    pub fn search_next(&self, state: &mut SearchState) -> (r: SearchStep)
        requires
            old(state).is_latest || old(state).page < usize::MAX,
            !(old(state).page == 0 && self.pages().dom().contains(decimal(0)) && self.pages()[decimal(
                0,
            )].len() == 0),
        ensures
            (r@, final(state).page as nat, final(state).is_latest) == search_outcome(
                self.pages(),
                old(state).page as nat,
                old(state).is_latest,
            ),
    {
        let ghost goal = search_outcome(self.pages(), state.page as nat, state.is_latest);
        let mut page = state.page;
        let mut latest = state.is_latest;
        loop
            invariant
                goal == search_outcome(self.pages(), old(state).page as nat, old(state).is_latest),
                search_outcome(self.pages(), page as nat, latest) == goal,
                latest || page < usize::MAX,
                !(page == 0 && self.pages().dom().contains(decimal(0))
                    && self.pages()[decimal(0)].len() == 0),
            decreases page,
        {
            let key = decimal_usize(page);
            match self.movie_cache.get(key.as_str()) {
                None => {
                    state.page = page;
                    state.is_latest = latest;
                    return SearchStep::Fetch(page);
                },
                Some(list) => {
                    assert(self.pages()[decimal(page as nat)] == list.deep_view());
                    if list.len() == 0 {
                        if page <= 1 {
                            state.page = page;
                            state.is_latest = latest;
                            return SearchStep::NotFound;
                        }
                        page = page - 1;
                        latest = true;
                    } else {
                        let menu = search_menu_exec(list, page, latest);
                        state.page = page;
                        state.is_latest = latest;
                        return SearchStep::Choose(menu);
                    }
                },
            }
        }
    }

    /// Whether result page `page` is stored and has no titles.
    pub fn page_is_empty(&self, page: usize) -> (b: bool)
        ensures
            b == (self.pages().dom().contains(decimal(page as nat)) && self.pages()[decimal(
                page as nat,
            )].len() == 0),
    {
        let key = decimal_usize(page);
        match self.movie_cache.get(key.as_str()) {
            Some(list) => {
                assert(self.pages()[decimal(page as nat)] == list.deep_view());
                list.len() == 0
            },
            None => false,
        }
    }

    /// Stores result page `page`; tells whether the total should be
    /// announced (a first page with titles).
    pub fn search_store(&mut self, page: usize, titles: Vec<Movie>) -> (announce: bool)
        ensures
            final(self).pages() == old(self).pages().insert(decimal(page as nat), titles.deep_view()),
            final(self).episode_lists() == old(self).episode_lists(),
            final(self).stream_lists() == old(self).stream_lists(),
            final(self).catalogue() == old(self).catalogue(),
            announce == (page == 1 && titles.len() > 0),
    {
        let announce = page == 1 && titles.len() > 0;
        let ghost tv = titles.deep_view();
        let key = decimal_usize(page);
        self.movie_cache.insert(key, titles);
        assert(self.pages() =~= old(self).pages().insert(decimal(page as nat), tv));
        announce
    }

    /// The entry chosen from a search menu: going back or on moves the page;
    /// any other entry ends the search with that title.
    pub fn search_choose(state: &mut SearchState, chosen: Movie) -> (r: Option<Movie>)
        requires
            chosen.id@ == "1"@ ==> old(state).page >= 1,
            chosen.id@ == "2"@ ==> old(state).page < usize::MAX,
        ensures
            final(state).is_latest == old(state).is_latest,
            final(state).page == page_after_choice(old(state).page as nat, chosen.id@),
            chosen.id@ == "1"@ ==> r is None && final(state).page == old(state).page - 1,
            chosen.id@ == "2"@ ==> r is None && final(state).page == old(state).page + 1,
            chosen.id@ != "1"@ && chosen.id@ != "2"@ ==> (r matches Some(m) && m@ == chosen@
                && final(state).page == old(state).page),
    {
        let back = "1".to_owned();
        let on = "2".to_owned();
        proof {
            reveal_strlit("1");
            reveal_strlit("2");
            assert("1"@ != "2"@) by {
                assert("1"@[0] != "2"@[0]);
            }
        }
        if chosen.id == back {
            state.page = state.page - 1;
            None
        } else if chosen.id == on {
            state.page = state.page + 1;
            None
        } else {
            Some(chosen)
        }
    }

    /// The entry at `index` of the menu the user was shown: going back or
    /// on moves the page; any other entry ends the search with that entry.
    pub fn search_pick(state: &mut SearchState, menu: &Vec<Movie>, index: usize) -> (r: Option<
        Movie,
    >)
        requires
            index < menu.len(),
            menu@[index as int].id@ == "1"@ ==> old(state).page >= 1,
            menu@[index as int].id@ == "2"@ ==> old(state).page < usize::MAX,
        ensures
            final(state).is_latest == old(state).is_latest,
            final(state).page == page_after_choice(old(state).page as nat, menu@[index as int].id@),
            match r {
                Some(m) => m@ == menu.deep_view()[index as int] && m.id@ != "1"@ && m.id@ != "2"@,
                None => menu@[index as int].id@ == "1"@ || menu@[index as int].id@ == "2"@,
            },
    {
        let chosen = menu[index].clone();
        Self::search_choose(state, chosen)
    }

    /// Whether the episodes of title `id` are stored.
    pub fn episodes_cached(&self, id: &str) -> (b: bool)
        ensures
            b == self.episode_lists().dom().contains(id@),
    {
        self.episode_cache.contains_key(id)
    }

    /// Stores the episodes and description of title `id`.
    pub fn store_episodes(&mut self, id: String, episodes: Vec<Episode>, meta: Meta)
        ensures
            final(self).episode_lists() == old(self).episode_lists().insert(
                id@,
                (episodes.deep_view(), meta@),
            ),
            final(self).pages() == old(self).pages(),
            final(self).stream_lists() == old(self).stream_lists(),
            final(self).catalogue() == old(self).catalogue(),
    {
        let ghost v = (episodes.deep_view(), meta@);
        let ghost k = id@;
        self.episode_cache.insert(id, (episodes, meta));
        assert(self.episode_lists() =~= old(self).episode_lists().insert(k, v));
    }

    /// What is shown for the stored title `id`: nothing when it has no
    /// episodes; otherwise its episodes, poster and facts.
    pub fn episode_listing(&self, id: &str) -> (r: Option<EpisodeListing>)
        requires
            self.episode_lists().dom().contains(id@),
        ensures
            match r {
                Some(l) => {
                    let (eps, meta) = self.episode_lists()[id@];
                    &&& eps.len() > 0
                    &&& l.episodes.deep_view() == eps
                    &&& l.thumb_url.deep_view() == meta.thumb_url
                    &&& l.facts.deep_view() == shown_facts(eps, meta)
                },
                None => self.episode_lists()[id@].0.len() == 0,
            },
    {
        match self.episode_cache.get(id) {
            Some(entry) => {
                let (episodes, meta) = entry;
                if episodes.len() == 0 {
                    return None;
                }
                let meta2 = meta.clone();
                let mut facts = meta2.data;
                let mentions = mentions_episodes_exec(&facts);
                if !mentions {
                    let n = decimal_usize(episodes.len());
                    let ghost before = facts.deep_view();
                    facts.push(("Episodes".to_owned(), n));
                    assert(facts.deep_view() =~= before.push(("Episodes"@, decimal(episodes@.len()))));
                }
                Some(
                    EpisodeListing {
                        episodes: clone_episodes(episodes),
                        thumb_url: meta2.thumb_url,
                        facts,
                    },
                )
            },
            None => None,
        }
    }

    /// The next step of showing the episodes of title `id`: ask the
    /// catalogue exactly when they are not stored; otherwise show what is
    /// stored.
    pub fn episode_step(&self, id: &str) -> (r: EpisodeStep)
        ensures
            r is Fetch <==> !self.episode_lists().dom().contains(id@),
            r is NoEpisodes <==> self.episode_lists().dom().contains(id@)
                && self.episode_lists()[id@].0.len() == 0,
            r matches EpisodeStep::Show(l) ==> listing_shows(
                l,
                self.episode_lists()[id@].0,
                self.episode_lists()[id@].1,
            ),
    {
        if !self.episodes_cached(id) {
            return EpisodeStep::Fetch;
        }
        match self.episode_listing(id) {
            Some(l) => EpisodeStep::Show(l),
            None => EpisodeStep::NoEpisodes,
        }
    }

    /// Whether the links of episode `id` are stored.
    pub fn streams_cached(&self, id: &str) -> (b: bool)
        ensures
            b == self.stream_lists().dom().contains(id@),
    {
        self.stream_cache.contains_key(id)
    }

    /// Stores the links of episode `id`.
    pub fn store_streams(&mut self, id: String, streams: Vec<Stream>)
        ensures
            final(self).stream_lists() == old(self).stream_lists().insert(id@, streams.deep_view()),
            final(self).pages() == old(self).pages(),
            final(self).episode_lists() == old(self).episode_lists(),
            final(self).catalogue() == old(self).catalogue(),
    {
        let ghost v = streams.deep_view();
        let ghost k = id@;
        self.stream_cache.insert(id, streams);
        assert(self.stream_lists() =~= old(self).stream_lists().insert(k, v));
    }

    /// The next step of showing the links of episode `id`: ask the
    /// catalogue exactly when they are not stored; otherwise show what is
    /// stored.
    pub fn stream_step(&self, id: &str) -> (r: StreamStep)
        ensures
            r is Fetch <==> !self.stream_lists().dom().contains(id@),
            r is NoLinks <==> self.stream_lists().dom().contains(id@)
                && self.stream_lists()[id@].len() == 0,
            r matches StreamStep::Show(v) ==> v.deep_view() == self.stream_lists()[id@] && v.len()
                > 0,
    {
        if !self.streams_cached(id) {
            return StreamStep::Fetch;
        }
        match self.stream_listing(id) {
            Some(v) => StreamStep::Show(v),
            None => StreamStep::NoLinks,
        }
    }

    /// The stored links of episode `id`; nothing when there are none.
    pub fn stream_listing(&self, id: &str) -> (r: Option<Vec<Stream>>)
        requires
            self.stream_lists().dom().contains(id@),
        ensures
            match r {
                Some(v) => v.deep_view() == self.stream_lists()[id@] && v.len() > 0,
                None => self.stream_lists()[id@].len() == 0,
            },
    {
        match self.stream_cache.get(id) {
            Some(streams) => {
                assert(self.stream_lists()[id@] == streams.deep_view());
                if streams.len() == 0 {
                    None
                } else {
                    Some(clone_streams(streams))
                }
            },
            None => None,
        }
    }
}

/// How handing the chosen link to a player went.
pub enum Playback {
    /// No player is started on this system.
    Unsupported,
    /// The link was played with `mpv`; whether `mpv` exited successfully.
    Mpv(bool),
    /// The link was handed to the system's opener.
    Opened,
    /// The system's opener failed.
    OpenFailed,
}

/// What the session does after a link was played.
pub enum AfterPlayback {
    /// Choose another episode of the same title.
    ChooseAgain,
    /// End the session.
    Stop,
    /// Ask whether to end the session; end it if so, else choose again.
    AskExit,
}

/// The decision after playing: a failed player or opener ends the session,
/// so does an opened film; an opened episode of a series asks first; after
/// `mpv`, or where nothing was started, another episode is chosen.
pub fn after_playback(outcome: Playback, is_series: bool) -> (r: AfterPlayback)
    ensures
        match outcome {
            Playback::Unsupported => r is ChooseAgain,
            Playback::Mpv(ok) => if ok {
                r is ChooseAgain
            } else {
                r is Stop
            },
            Playback::Opened => if is_series {
                r is AskExit
            } else {
                r is Stop
            },
            Playback::OpenFailed => r is Stop,
        },
{
    match outcome {
        Playback::Unsupported => AfterPlayback::ChooseAgain,
        Playback::Mpv(ok) => if ok {
            AfterPlayback::ChooseAgain
        } else {
            AfterPlayback::Stop
        },
        Playback::Opened => if is_series {
            AfterPlayback::AskExit
        } else {
            AfterPlayback::Stop
        },
        Playback::OpenFailed => AfterPlayback::Stop,
    }
}

// ---------------------------------------------------------------------
// Laws
// ---------------------------------------------------------------------

/// A search only asks for a page that is not stored, and never for a page
/// after the one it stands on.
pub proof fn law_fetch_only_missing(pages: Map<Seq<char>, Seq<MovieView>>, page: nat, is_latest: bool)
    ensures
        search_outcome(pages, page, is_latest).0 matches SearchStepView::Fetch(q) ==> (
        !pages.dom().contains(decimal(q)) && q <= page),
    decreases page,
{
    if pages.dom().contains(decimal(page)) && pages[decimal(page)].len() == 0 && page > 1 {
        law_fetch_only_missing(pages, (page - 1) as nat, true);
    }
}

/// Once a page is stored, a search does not ask for it again.
pub proof fn law_stored_page_not_fetched(
    pages: Map<Seq<char>, Seq<MovieView>>,
    page: nat,
    titles: Seq<MovieView>,
)
    ensures
        forall|p: nat, l: bool|
            #![trigger search_outcome(pages.insert(decimal(page), titles), p, l)]
            search_outcome(pages.insert(decimal(page), titles), p, l).0 is Fetch ==> search_outcome(
                pages.insert(decimal(page), titles),
                p,
                l,
            ).0->Fetch_0 != page,
{
    assert forall|p: nat, l: bool|
        #![trigger search_outcome(pages.insert(decimal(page), titles), p, l)]
        search_outcome(pages.insert(decimal(page), titles), p, l).0 is Fetch implies search_outcome(
            pages.insert(decimal(page), titles),
            p,
            l,
        ).0->Fetch_0 != page by {
        law_fetch_only_missing(pages.insert(decimal(page), titles), p, l);
    }
}

/// A step that shows a menu shows the menu of a stored page: the page it
/// leaves the search on, with the last-page flag it leaves.
pub proof fn lemma_menu_of_stored_page(pages: Map<Seq<char>, Seq<MovieView>>, page: nat, is_latest: bool)
    ensures
        search_outcome(pages, page, is_latest).0 is Choose ==> {
            let (step, p, l) = search_outcome(pages, page, is_latest);
            &&& pages.dom().contains(decimal(p))
            &&& step->Choose_0 == search_menu(pages[decimal(p)], p, l)
        },
    decreases page,
{
    if pages.dom().contains(decimal(page)) && pages[decimal(page)].len() == 0 && page > 1 {
        lemma_menu_of_stored_page(pages, (page - 1) as nat, true);
    }
}

/// A search ends only with a menu entry that is neither the way back nor
/// the way on, and such an entry is the title at the same place on the
/// stored page the menu was made from.
pub proof fn law_pick_is_stored_title(
    pages: Map<Seq<char>, Seq<MovieView>>,
    page: nat,
    is_latest: bool,
    index: int,
)
    requires
        search_outcome(pages, page, is_latest).0 is Choose,
        0 <= index < search_outcome(pages, page, is_latest).0->Choose_0.len(),
        search_outcome(pages, page, is_latest).0->Choose_0[index].id != "1"@,
        search_outcome(pages, page, is_latest).0->Choose_0[index].id != "2"@,
    ensures
        ({
            let (step, p, l) = search_outcome(pages, page, is_latest);
            &&& pages.dom().contains(decimal(p))
            &&& index < pages[decimal(p)].len()
            &&& step->Choose_0[index] == pages[decimal(p)][index]
        }),
{
    lemma_menu_of_stored_page(pages, page, is_latest);
    let (step, p, l) = search_outcome(pages, page, is_latest);
    let titles = pages[decimal(p)];
    let menu = search_menu(titles, p, l);
    let tail = (if p > 1 {
        seq![previous_entry(p)]
    } else {
        Seq::empty()
    }) + (if !l {
        seq![next_entry(p)]
    } else {
        Seq::empty()
    });
    assert(menu =~= titles + tail);
    if index >= titles.len() {
        let e = tail[index - titles.len()];
        assert(menu[index] == e);
        assert(e.id == "1"@ || e.id == "2"@);
    }
}

/// A search asks the catalogue for a page only while that page is not
/// stored. Storing the answer adds that page alone and keeps every stored
/// page as it was; from then on no search, from any page and in any state,
/// asks for that page again.
pub proof fn law_search_fetch_store(
    pages: Map<Seq<char>, Seq<MovieView>>,
    page: nat,
    is_latest: bool,
    titles: Seq<MovieView>,
)
    requires
        search_outcome(pages, page, is_latest).0 is Fetch,
    ensures
        ({
            let q = search_outcome(pages, page, is_latest).0->Fetch_0;
            let after = pages.insert(decimal(q), titles);
            &&& !pages.dom().contains(decimal(q))
            &&& after.dom() == pages.dom().insert(decimal(q))
            &&& after[decimal(q)] == titles
            &&& forall|k: Seq<char>| #[trigger] pages.dom().contains(k) ==> after[k] == pages[k]
            &&& forall|p: nat, l: bool|
                #[trigger] search_outcome(after, p, l).0 is Fetch ==> search_outcome(
                    after,
                    p,
                    l,
                ).0->Fetch_0 != q
        }),
{
    let q = search_outcome(pages, page, is_latest).0->Fetch_0;
    law_fetch_only_missing(pages, page, is_latest);
    law_stored_page_not_fetched(pages, q, titles);
    let after = pages.insert(decimal(q), titles);
    assert(after.dom() =~= pages.dom().insert(decimal(q)));
    assert forall|k: Seq<char>| #[trigger] pages.dom().contains(k) implies after[k] == pages[k] by {
        assert(k != decimal(q));
    }
}

/// Storing one page leaves every other page as it was.
pub proof fn law_store_keeps_other_pages(
    pages: Map<Seq<char>, Seq<MovieView>>,
    p: nat,
    q: nat,
    titles: Seq<MovieView>,
)
    requires
        p != q,
    ensures
        pages.insert(decimal(p), titles).dom().contains(decimal(q)) == pages.dom().contains(
            decimal(q),
        ),
        pages.insert(decimal(p), titles)[decimal(q)] == pages[decimal(q)],
{
    law_decimal_injective(p, q);
}

/// Once the last page has been seen it stays seen; it becomes seen only by
/// stepping back from an empty page. The page never rises, and from the
/// first page on it never drops below it.
pub proof fn law_search_progress(pages: Map<Seq<char>, Seq<MovieView>>, page: nat, is_latest: bool)
    ensures
        is_latest ==> search_outcome(pages, page, is_latest).2,
        search_outcome(pages, page, is_latest).2 ==> is_latest || search_outcome(
            pages,
            page,
            is_latest,
        ).1 < page,
        search_outcome(pages, page, is_latest).1 <= page,
        page >= 1 ==> search_outcome(pages, page, is_latest).1 >= 1,
    decreases page,
{
    if pages.dom().contains(decimal(page)) && pages[decimal(page)].len() == 0 && page > 1 {
        law_search_progress(pages, (page - 1) as nat, true);
    }
}

/// A menu lists the page's titles first, unchanged, then a way back exactly
/// when the page is not the first, then a way on exactly when the last page
/// is unseen.
pub proof fn law_menu_shape(titles: Seq<MovieView>, page: nat, is_latest: bool)
    ensures
        search_menu(titles, page, is_latest).take(titles.len() as int) == titles,
        search_menu(titles, page, is_latest).len() == titles.len() + (if page > 1 {
            1int
        } else {
            0int
        }) + (if !is_latest {
            1int
        } else {
            0int
        }),
        page > 1 ==> search_menu(titles, page, is_latest)[titles.len() as int] == previous_entry(
            page,
        ),
        !is_latest ==> search_menu(titles, page, is_latest).last() == next_entry(page),
{
    let m = search_menu(titles, page, is_latest);
    assert(m.take(titles.len() as int) =~= titles);
}

/// Going back a page and then on again returns to the same page.
pub proof fn law_back_then_on(page: nat)
    requires
        page >= 1,
    ensures
        page_after_choice(page_after_choice(page, "1"@), "2"@) == page,
{
    reveal_strlit("1");
    reveal_strlit("2");
    assert("1"@[0] != "2"@[0]);
}

/// The facts shown for a title are those of its description, in order,
/// followed by the episode count exactly when no fact is about episodes.
pub proof fn law_shown_facts(episodes: Seq<EpisodeView>, meta: MetaView)
    ensures
        shown_facts(episodes, meta).take(meta.data.len() as int) == meta.data,
        shown_facts(episodes, meta).len() == meta.data.len() + (if mentions_episodes(meta.data) {
            0int
        } else {
            1int
        }),
{
    assert(shown_facts(episodes, meta).take(meta.data.len() as int) =~= meta.data);
}

/// Once the episodes of a title or the links of an episode are stored,
/// storing more keeps them stored: the step for them never asks the
/// catalogue again.
pub proof fn law_stored_stays_stored<V>(lists: Map<Seq<char>, V>, id: Seq<char>, key: Seq<char>, value: V)
    requires
        lists.dom().contains(id),
    ensures
        lists.insert(key, value).dom().contains(id),
        key != id ==> lists.insert(key, value)[id] == lists[id],
{
}

/// What is stored for a title or an episode is what is listed for it
/// afterwards.
pub proof fn law_listing_reads_stored<V>(lists: Map<Seq<char>, V>, id: Seq<char>, stored: V)
    ensures
        lists.insert(id, stored).dom().contains(id),
        lists.insert(id, stored)[id] == stored,
{
}

/// The menu of a result page.
fn search_menu_exec(list: &Vec<Movie>, page: usize, is_latest: bool) -> (r: Vec<Movie>)
    requires
        is_latest || page < usize::MAX,
    ensures
        r.deep_view() == search_menu(list.deep_view(), page as nat, is_latest),
{
    let mut menu = clone_movies(list);
    let ghost base = menu.deep_view();
    if page > 1 {
        let n = decimal_usize(page - 1);
        let a = concatenate("Sebelumnnya (Halaman ", n.as_str());
        let title = concatenate(a.as_str(), ")");
        menu.push(Movie { id: "1".to_owned(), title, total_episodes: None });
    }
    let ghost mid = menu.deep_view();
    assert(mid =~= base + (if page > 1 {
        seq![previous_entry(page as nat)]
    } else {
        Seq::empty()
    }));
    if !is_latest {
        let n = decimal_usize(page + 1);
        let a = concatenate("Selanjutnya (Halaman ", n.as_str());
        let title = concatenate(a.as_str(), ")");
        menu.push(Movie { id: "2".to_owned(), title, total_episodes: None });
    }
    assert(menu.deep_view() =~= search_menu(list.deep_view(), page as nat, is_latest));
    menu
}

/// Whether some fact label, in lower case, contains `episode`.
fn mentions_episodes_exec(facts: &Vec<(String, String)>) -> (b: bool)
    ensures
        b == mentions_episodes(facts.deep_view()),
{
    let n = facts.len();
    let mut i: usize = 0;
    while i < n
        invariant
            i <= n == facts@.len(),
            forall|j: int|
                0 <= j < i ==> !spec_contains(
                    spec_to_lowercase(#[trigger] facts.deep_view()[j].0),
                    "episode"@,
                ),
        decreases n - i,
    {
        let lower = to_lowercase(facts[i].0.as_str());
        if contains(lower.as_str(), "episode") {
            assert(facts.deep_view()[i as int].0 == facts@[i as int].0@);
            return true;
        }
        i = i + 1;
    }
    false
}

/// A copy of a list of titles.
pub fn clone_movies(v: &Vec<Movie>) -> (r: Vec<Movie>)
    ensures
        r.deep_view() == v.deep_view(),
{
    let mut r: Vec<Movie> = Vec::new();
    let n = v.len();
    for i in 0..n
        invariant
            n == v@.len(),
            r@.len() == i,
            forall|j: int| 0 <= j < i ==> #[trigger] r@[j]@ == v@[j]@,
    {
        r.push(v[i].clone());
    }
    assert(r.deep_view() =~= v.deep_view());
    r
}

/// A copy of a list of episodes.
pub fn clone_episodes(v: &Vec<Episode>) -> (r: Vec<Episode>)
    ensures
        r.deep_view() == v.deep_view(),
{
    let mut r: Vec<Episode> = Vec::new();
    let n = v.len();
    for i in 0..n
        invariant
            n == v@.len(),
            r@.len() == i,
            forall|j: int| 0 <= j < i ==> #[trigger] r@[j]@ == v@[j]@,
    {
        r.push(v[i].clone());
    }
    assert(r.deep_view() =~= v.deep_view());
    r
}

/// A copy of a list of links.
pub fn clone_streams(v: &Vec<Stream>) -> (r: Vec<Stream>)
    ensures
        r.deep_view() == v.deep_view(),
{
    let mut r: Vec<Stream> = Vec::new();
    let n = v.len();
    for i in 0..n
        invariant
            n == v@.len(),
            r@.len() == i,
            forall|j: int| 0 <= j < i ==> #[trigger] r@[j]@ == v@[j]@,
    {
        r.push(v[i].clone());
    }
    assert(r.deep_view() =~= v.deep_view());
    r
}

} // verus!
