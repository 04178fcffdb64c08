//! The search options a run is started with.
use crate::text::{decimal, decimal_string};
use vstd::prelude::*;

verus! {

/// Search options and the settings that may override the configuration.
#[derive(Debug, Clone)]
pub struct Args {
    /// The search query.
    pub query: String,
    pub sort_field: SortField,
    pub sort_direction: SortOrder,
    /// Images per result page.
    pub per_page: u32,
    /// The most images to fetch in this run; all results where absent.
    pub limit: Option<u32>,
    pub base_url: Option<String>,
    pub filter_id: Option<u32>,
    pub user_agent: Option<String>,
    pub cookie: Option<String>,
    pub rps: Option<u32>,
    pub concurrency: Option<u32>,
    pub save_path: Option<String>,
}

/// The fields that results can be sorted by.
#[derive(Debug, Clone, Copy, PartialEq, Eq, Structural)]
pub enum SortField {
    Id,
    UpdatedAt,
    AspectRatio,
    Faves,
    Upvotes,
    Downvotes,
    Score,
    Relevance,
    Random,
    Width,
    Height,
    CommentCount,
    TagCount,
    Pixels,
    Size,
    Duration,
}

/// Sort directions.
#[derive(Debug, Clone, Copy, PartialEq, Eq, Structural)]
pub enum SortOrder {
    Asc,
    Desc,
}

/// The name the search endpoint knows a sort field by; `seed` is the seed of
/// a random order.
pub open spec fn sort_field_name(field: SortField, seed: u32) -> Seq<char> {
    match field {
        SortField::Id => "id"@,
        SortField::UpdatedAt => "updated_at"@,
        SortField::AspectRatio => "aspect_ratio"@,
        SortField::Faves => "faves"@,
        SortField::Upvotes => "upvotes"@,
        SortField::Downvotes => "downvotes"@,
        SortField::Score => "score"@,
        SortField::Relevance => "_score"@,
        SortField::Random => "random:"@ + decimal(seed as nat),
        SortField::Width => "width"@,
        SortField::Height => "height"@,
        SortField::CommentCount => "comment_count"@,
        SortField::TagCount => "tag_count"@,
        SortField::Pixels => "pixels"@,
        SortField::Size => "size"@,
        SortField::Duration => "duration"@,
    }
}

pub open spec fn sort_order_name(order: SortOrder) -> Seq<char> {
    match order {
        SortOrder::Asc => "asc"@,
        SortOrder::Desc => "desc"@,
    }
}

/// Relies on `rand::random`: a fresh `u32` from the thread-local generator.
/// Nothing is known of its value.
#[verifier::external_body]
fn random_seed() -> u32 {
    rand::random::<u32>()
}

impl SortField {
    /// The name of this field for the search endpoint, with `seed` as the
    /// seed of a random order.
    pub fn api_string_with_seed(&self, seed: u32) -> (r: String)
        ensures
            r@ == sort_field_name(*self, seed),
    {
        match self {
            SortField::Id => String::from_str("id"),
            SortField::UpdatedAt => String::from_str("updated_at"),
            SortField::AspectRatio => String::from_str("aspect_ratio"),
            SortField::Faves => String::from_str("faves"),
            SortField::Upvotes => String::from_str("upvotes"),
            SortField::Downvotes => String::from_str("downvotes"),
            SortField::Score => String::from_str("score"),
            SortField::Relevance => String::from_str("_score"),
            SortField::Random => {
                let mut s = String::from_str("random:");
                let n = decimal_string(seed);
                s.append(n.as_str());
                s
            },
            SortField::Width => String::from_str("width"),
            SortField::Height => String::from_str("height"),
            SortField::CommentCount => String::from_str("comment_count"),
            SortField::TagCount => String::from_str("tag_count"),
            SortField::Pixels => String::from_str("pixels"),
            SortField::Size => String::from_str("size"),
            SortField::Duration => String::from_str("duration"),
        }
    }

    /// The name of this field for the search endpoint; a random order gets
    /// a fresh seed on each call.
    pub fn to_api_string(&self) -> (r: String)
        ensures
            exists|seed: u32| r@ == sort_field_name(*self, seed),
            *self != SortField::Random ==> r@ == sort_field_name(*self, 0),
    {
        let seed = if *self == SortField::Random {
            random_seed()
        } else {
            0
        };
        let r = self.api_string_with_seed(seed);
        assert(r@ == sort_field_name(*self, seed));
        r
    }
}

impl SortOrder {
    /// The name of this direction for the search endpoint.
    pub fn to_api_string(&self) -> (r: String)
        ensures
            r@ == sort_order_name(*self),
    {
        match self {
            SortOrder::Asc => String::from_str("asc"),
            SortOrder::Desc => String::from_str("desc"),
        }
    }
}

} // verus!
