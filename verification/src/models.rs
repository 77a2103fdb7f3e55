//! The records that flow between a catalogue and the user: search input,
//! titles, episodes, stream links and descriptive metadata.

use vstd::prelude::*;

use crate::text::{concatenate, spec_trim, trim};

verus! {

/// What the user asked for: a title and the kind of catalogue (an index).
pub struct Input {
    pub title: String,
    pub tipe: usize,
}

/// A title found by a search.
#[derive(Debug)]
pub struct Movie {
    pub id: String,
    pub title: String,
    pub total_episodes: Option<String>,
}

/// The mathematical value of a [`Movie`].
pub struct MovieView {
    pub id: Seq<char>,
    pub title: Seq<char>,
    pub total_episodes: Option<Seq<char>>,
}

impl View for Movie {
    type V = MovieView;

    open spec fn view(&self) -> MovieView {
        MovieView {
            id: self.id@,
            title: self.title@,
            total_episodes: self.total_episodes.deep_view(),
        }
    }
}

impl DeepView for Movie {
    type V = MovieView;

    open spec fn deep_view(&self) -> MovieView {
        self@
    }
}

impl Clone for Movie {
    fn clone(&self) -> (r: Self)
        ensures
            r@ == self@,
    {
        Movie {
            id: self.id.clone(),
            title: self.title.clone(),
            total_episodes: match &self.total_episodes {
                Some(t) => Some(t.clone()),
                None => None,
            },
        }
    }
}

/// An episode (or the single part of a film) of a title.
#[derive(Debug)]
pub struct Episode {
    pub id: String,
    pub title: String,
    pub is_series: bool,
}

/// The mathematical value of an [`Episode`].
pub struct EpisodeView {
    pub id: Seq<char>,
    pub title: Seq<char>,
    pub is_series: bool,
}

impl View for Episode {
    type V = EpisodeView;

    open spec fn view(&self) -> EpisodeView {
        EpisodeView { id: self.id@, title: self.title@, is_series: self.is_series }
    }
}

impl DeepView for Episode {
    type V = EpisodeView;

    open spec fn deep_view(&self) -> EpisodeView {
        self@
    }
}

impl Clone for Episode {
    fn clone(&self) -> (r: Self)
        ensures
            r@ == self@,
    {
        Episode { id: self.id.clone(), title: self.title.clone(), is_series: self.is_series }
    }
}

/// A playable link with a label (resolution, server, size).
#[derive(Debug)]
pub struct Stream {
    pub url: String,
    pub title: String,
}

/// The mathematical value of a [`Stream`].
pub struct StreamView {
    pub url: Seq<char>,
    pub title: Seq<char>,
}

impl View for Stream {
    type V = StreamView;

    open spec fn view(&self) -> StreamView {
        StreamView { url: self.url@, title: self.title@ }
    }
}

impl DeepView for Stream {
    type V = StreamView;

    open spec fn deep_view(&self) -> StreamView {
        self@
    }
}

impl Clone for Stream {
    fn clone(&self) -> (r: Self)
        ensures
            r@ == self@,
    {
        Stream { url: self.url.clone(), title: self.title.clone() }
    }
}

/// Descriptive data of a title: an optional poster link and labelled facts.
#[derive(Debug)]
pub struct Meta {
    pub thumb_url: Option<String>,
    pub data: Vec<(String, String)>,
}

/// The mathematical value of a [`Meta`].
pub struct MetaView {
    pub thumb_url: Option<Seq<char>>,
    pub data: Seq<(Seq<char>, Seq<char>)>,
}

impl View for Meta {
    type V = MetaView;

    open spec fn view(&self) -> MetaView {
        MetaView { thumb_url: self.thumb_url.deep_view(), data: self.data.deep_view() }
    }
}

impl DeepView for Meta {
    type V = MetaView;

    open spec fn deep_view(&self) -> MetaView {
        self@
    }
}

impl Clone for Meta {
    fn clone(&self) -> (r: Self)
        ensures
            r@ == self@,
    {
        let mut data: Vec<(String, String)> = Vec::new();
        let n = self.data.len();
        for i in 0..n
            invariant
                n == self.data@.len(),
                data@.len() == i,
                forall|j: int| 0 <= j < i ==> #[trigger] data@[j].deep_view() == self.data@[j].deep_view(),
        {
            let entry = &self.data[i];
            let k = entry.0.clone();
            let v = entry.1.clone();
            data.push((k, v));
        }
        assert(data.deep_view() =~= self.data.deep_view());
        Meta {
            thumb_url: match &self.thumb_url {
                Some(t) => Some(t.clone()),
                None => None,
            },
            data,
        }
    }
}

impl Meta {
    /// Metadata with no poster and no facts.
    pub fn empty() -> (r: Meta)
        ensures
            r@.thumb_url is None,
            r@.data.len() == 0,
    {
        Meta { thumb_url: None, data: Vec::new() }
    }
}

/// How a title is shown in a menu: its trimmed title, followed by the
/// episode count in brackets where there is one.
pub open spec fn movie_label(m: MovieView) -> Seq<char> {
    match m.total_episodes {
        Some(t) => spec_trim(m.title) + seq![' ', '('] + t + seq![' ', 'e', 'p', 's', ')'],
        None => spec_trim(m.title),
    }
}

impl Movie {
    /// The menu label of this title (what its `Display` shows).
    pub fn display_text(&self) -> (r: String)
        ensures
            r@ == movie_label(self@),
    {
        let t = trim(self.title.as_str());
        match &self.total_episodes {
            Some(eps) => {
                let open = " (";
                let close = " eps)";
                proof {
                    reveal_strlit(" (");
                    reveal_strlit(" eps)");
                }
                let a = concatenate(t.as_str(), open);
                let b = concatenate(a.as_str(), eps.as_str());
                let r = concatenate(b.as_str(), close);
                assert(r@ =~= movie_label(self@));
                r
            },
            None => t,
        }
    }
}

impl Episode {
    /// The menu label of this episode: its trimmed title.
    pub fn display_text(&self) -> (r: String)
        ensures
            r@ == spec_trim(self.title@),
    {
        trim(self.title.as_str())
    }
}

impl Stream {
    /// The menu label of this link: its trimmed title.
    pub fn display_text(&self) -> (r: String)
        ensures
            r@ == spec_trim(self.title@),
    {
        trim(self.title.as_str())
    }
}

impl Default for Movie {
    /// A title with empty id and name and no episode count.
    fn default() -> (r: Self)
        ensures
            r@ == (MovieView { id: Seq::empty(), title: Seq::empty(), total_episodes: None }),
    {
        Movie { id: String::new(), title: String::new(), total_episodes: None }
    }
}

impl Default for Episode {
    /// An episode with empty id and title, not part of a series.
    fn default() -> (r: Self)
        ensures
            r@ == (EpisodeView { id: Seq::empty(), title: Seq::empty(), is_series: false }),
    {
        Episode { id: String::new(), title: String::new(), is_series: false }
    }
}

impl Default for Stream {
    /// A link with empty address and title.
    fn default() -> (r: Self)
        ensures
            r@ == (StreamView { url: Seq::empty(), title: Seq::empty() }),
    {
        Stream { url: String::new(), title: String::new() }
    }
}

impl Default for Meta {
    /// Metadata with no poster and no facts.
    fn default() -> (r: Self)
        ensures
            r@ == (MetaView { thumb_url: None, data: Seq::empty() }),
    {
        let r = Meta::empty();
        assert(r@.data =~= Seq::<(Seq<char>, Seq<char>)>::empty());
        r
    }
}

} // verus!
