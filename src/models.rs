//! The records that flow from the result pages to the download workers.
use vstd::prelude::*;

verus! {

/// A representation name paired with its URL, as plain text.
pub type PairsView = Seq<(Seq<char>, Seq<char>)>;

/// The text of each name/URL pair.
pub open spec fn pairs_view(pairs: Seq<(String, String)>) -> PairsView {
    pairs.map_values(|p: (String, String)| (p.0@, p.1@))
}

/// No name occurs twice.
pub open spec fn keys_distinct(pairs: PairsView) -> bool {
    forall|i: int, j: int|
        0 <= i < pairs.len() && 0 <= j < pairs.len() && i != j ==> #[trigger] pairs[i].0
            != #[trigger] pairs[j].0
}

/// The URL of the first pair named `key`.
pub open spec fn lookup(pairs: PairsView, key: Seq<char>) -> Option<Seq<char>>
    decreases pairs.len(),
{
    if pairs.len() == 0 {
        None
    } else if pairs[0].0 == key {
        Some(pairs[0].1)
    } else {
        lookup(pairs.drop_first(), key)
    }
}

/// The URL to view an image by: its `full` representation, else its `tall`
/// one, else the first in order, else nothing.
pub open spec fn view_url_of(pairs: PairsView) -> Seq<char> {
    if lookup(pairs, "full"@) is Some {
        lookup(pairs, "full"@)->0
    } else if lookup(pairs, "tall"@) is Some {
        lookup(pairs, "tall"@)->0
    } else if pairs.len() > 0 {
        pairs[0].1
    } else {
        Seq::empty()
    }
}

/// One image to fetch: where from, and the extension of the file to write.
#[derive(Debug)]
pub struct DownloadTask {
    pub id: u32,
    pub url: String,
    pub file_ext: String,
}

/// What one result page holds.
#[derive(Debug)]
pub struct PageResponse {
    /// The number of results in all; read on the first page only.
    pub total: Option<u32>,
    pub images: Vec<ImageItem>,
}

/// One image as a result page lists it.
#[derive(Debug)]
pub struct ImageItem {
    pub id: u32,
    /// Representation names with their URLs, each name once.
    pub representations: Vec<(String, String)>,
    pub view_url: String,
    pub format: String,
}

impl View for ImageItem {
    type V = (u32, PairsView, Seq<char>, Seq<char>);

    open spec fn view(&self) -> Self::V {
        (self.id, pairs_view(self.representations@), self.view_url@, self.format@)
    }
}

impl View for DownloadTask {
    type V = (u32, Seq<char>, Seq<char>);

    open spec fn view(&self) -> Self::V {
        (self.id, self.url@, self.file_ext@)
    }
}

} // verus!
