//! The catalogues a search can run against.

use vstd::prelude::*;

use crate::ext::nontonanime::anime::AnimeExt;
use crate::ext::nontonanime::movie::MovieExt;
use crate::ext::tenflix::TenflixExt;

pub mod nontonanime;
pub mod tenflix;

verus! {

/// One of the catalogues.
pub enum Extractor {
    /// Anime series, on-going and complete.
    Anime(AnimeExt),
    /// Live action, Asian and anime films.
    Movie(MovieExt),
    /// The `tenflix.org` site.
    Tenflix(TenflixExt),
}

/// The catalogue for search type `id`: 0 for anime, 1 for films, any other
/// number for `tenflix.org`.
pub fn get_ext(id: usize) -> (r: Extractor)
    ensures
        id == 0 ==> r is Anime,
        id == 1 ==> (r matches Extractor::Movie(m) && m.metadata_view().len() == 0),
        id > 1 ==> r is Tenflix,
{
    if id == 0 {
        Extractor::Anime(AnimeExt::new())
    } else if id == 1 {
        let m = MovieExt::new();
        Extractor::Movie(m)
    } else {
        Extractor::Tenflix(TenflixExt::new())
    }
}

} // verus!
