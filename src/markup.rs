//! Reading search result pages: the image cards with their representations,
//! and the result count that the first page shows.
use crate::error::{dom_error, logic_error, FerrumenaError};
use crate::models::{keys_distinct, lookup, pairs_view, view_url_of, ImageItem, PageResponse, PairsView};
use crate::text::{
    decimal, decimal_string, format_of, format_text, parse_u32, trim_text, trimmed, u32_of, unescape_quot,
    unescape_quot_text,
};
use vstd::prelude::*;

verus! {

// ---------------------------------------------------------------------------
// Outside parsers
// ---------------------------------------------------------------------------

/// The name/URL pairs that a JSON object of strings decodes to, in key
/// order; none where the text is not such an object.
pub uninterp spec fn json_string_map(text: Seq<char>) -> Option<PairsView>;

/// For each element that matches a CSS selector in an HTML document, in the
/// order the parser created the elements, the values of two of its
/// attributes; none where the selector does not parse.
pub uninterp spec fn selected_attr_pairs(
    html: Seq<char>,
    css: Seq<char>,
    first: Seq<char>,
    second: Seq<char>,
) -> Option<Seq<(Option<Seq<char>>, Option<Seq<char>>)>>;

/// For each element that matches a CSS selector in an HTML document, in the
/// order the parser created the elements, the markup inside it; none where
/// the selector does not parse.
pub uninterp spec fn selected_inner_html(html: Seq<char>, css: Seq<char>) -> Option<
    Seq<Seq<char>>,
>;

#[verifier::external_type_specification]
#[verifier::external_body]
pub struct ExJsonError(serde_json::Error);

pub open spec fn opt_text(o: Option<String>) -> Option<Seq<char>> {
    match o {
        Some(s) => Some(s@),
        None => None,
    }
}

pub open spec fn attr_pairs_view(v: Seq<(Option<String>, Option<String>)>) -> Seq<
    (Option<Seq<char>>, Option<Seq<char>>),
> {
    v.map_values(|p: (Option<String>, Option<String>)| (opt_text(p.0), opt_text(p.1)))
}

pub open spec fn texts_view(v: Seq<String>) -> Seq<Seq<char>> {
    v.map_values(|s: String| s@)
}

/// Relies on `serde_json::from_str` into a `BTreeMap<String, String>`: it
/// succeeds where the text is one JSON object whose values are all strings,
/// and the map hands out its pairs in key order, each key once.
#[verifier::external_body]
fn decode_string_map(text: &str) -> (r: Result<Vec<(String, String)>, serde_json::Error>)
    ensures
        match r {
            Ok(pairs) => json_string_map(text@) == Some(pairs_view(pairs@)) && keys_distinct(
                pairs_view(pairs@),
            ),
            Err(_) => json_string_map(text@) is None,
        },
{
    serde_json::from_str::<std::collections::BTreeMap<String, String>>(text).map(
        |m| m.into_iter().collect(),
    )
}

/// Relies on scraper: `Selector::parse` reads `css`, `Html::parse_document`
/// reads `html`, `Html::select` yields the matching elements in the order
/// the parser created them, and `ElementRef::attr` reads the two named attributes of each.
#[verifier::external_body]
fn select_attribute_pairs(html: &str, css: &str, first: &str, second: &str) -> (r: Option<
    Vec<(Option<String>, Option<String>)>,
>)
    ensures
        match r {
            Some(v) => selected_attr_pairs(html@, css@, first@, second@) == Some(
                attr_pairs_view(v@),
            ),
            None => selected_attr_pairs(html@, css@, first@, second@) is None,
        },
{
    let selector = scraper::Selector::parse(css).ok()?;
    let document = scraper::Html::parse_document(html);
    let found = document.select(&selector).map(
        |e| (e.attr(first).map(String::from), e.attr(second).map(String::from)),
    ).collect();
    Some(found)
}

/// Relies on scraper: `Selector::parse` reads `css`, `Html::parse_document`
/// reads `html`, `Html::select` yields the matching elements in the order
/// the parser created them, and `ElementRef::inner_html` gives the markup inside each.
#[verifier::external_body]
fn select_inner_html(html: &str, css: &str) -> (r: Option<Vec<String>>)
    ensures
        match r {
            Some(v) => selected_inner_html(html@, css@) == Some(texts_view(v@)),
            None => selected_inner_html(html@, css@) is None,
        },
{
    let selector = scraper::Selector::parse(css).ok()?;
    let document = scraper::Html::parse_document(html);
    Some(document.select(&selector).map(|e| e.inner_html()).collect())
}

// ---------------------------------------------------------------------------
// Representations
// ---------------------------------------------------------------------------

/// The URL of the representation named `key`.
pub fn lookup_representation(representations: &Vec<(String, String)>, key: &str) -> (r: Option<
    String,
>)
    ensures
        opt_text(r) == lookup(pairs_view(representations@), key@),
{
    let k = String::from_str(key);
    let ghost all = pairs_view(representations@);
    let n = representations.len();
    let mut i: usize = 0;
    assert(all.subrange(0, n as int) =~= all);
    while i < n
        invariant
            i <= n,
            n == representations@.len(),
            all == pairs_view(representations@),
            k@ == key@,
            lookup(all, key@) == lookup(all.subrange(i as int, n as int), key@),
        decreases n - i,
    {
        let ghost rest = all.subrange(i as int, n as int);
        assert(rest[0] == (representations@[i as int].0@, representations@[i as int].1@));
        if representations[i].0 == k {
            return Some(representations[i].1.clone());
        }
        assert(rest.drop_first() =~= all.subrange(i + 1, n as int));
        i += 1;
    }
    None
}

/// The URL to view an image by: `full`, else `tall`, else the first
/// representation, else the empty text.
pub fn pick_view_url(representations: &Vec<(String, String)>) -> (r: String)
    ensures
        r@ == view_url_of(pairs_view(representations@)),
        lookup(pairs_view(representations@), "full"@) matches Some(u) ==> r@ == u,
        lookup(pairs_view(representations@), "full"@) is None && lookup(
            pairs_view(representations@),
            "tall"@,
        ) is Some ==> r@ == lookup(pairs_view(representations@), "tall"@)->0,
        representations@.len() > 0 ==> exists|i: int|
            0 <= i < representations@.len() && r@ == (#[trigger] representations@[i]).1@,
        representations@.len() == 0 ==> r@.len() == 0,
{
    proof {
        lemma_lookup_found(pairs_view(representations@), "full"@);
        lemma_lookup_found(pairs_view(representations@), "tall"@);
    }
    match lookup_representation(representations, "full") {
        Some(u) => u,
        None => match lookup_representation(representations, "tall") {
            Some(u) => u,
            None => {
                if representations.len() > 0 {
                    assert(pairs_view(representations@)[0].1 == representations@[0].1@);
                    representations[0].1.clone()
                } else {
                    String::new()
                }
            },
        },
    }
}

/// A URL that a lookup finds is the URL of one of the pairs.
pub proof fn lemma_lookup_found(pairs: PairsView, key: Seq<char>)
    ensures
        lookup(pairs, key) matches Some(u) ==> exists|i: int|
            0 <= i < pairs.len() && u == (#[trigger] pairs[i]).1,
        pairs.len() == 0 ==> lookup(pairs, key) is None,
    decreases pairs.len(),
{
    if pairs.len() > 0 && pairs[0].0 != key {
        lemma_lookup_found(pairs.drop_first(), key);
        if lookup(pairs, key) is Some {
            let i = choose|i: int|
                0 <= i < pairs.drop_first().len() && lookup(pairs, key)->0 == (
                #[trigger] pairs.drop_first()[i]).1;
            assert(pairs[i + 1] == pairs.drop_first()[i]);
        }
    }
}

/// With no representation at all, the view URL is empty and no format can
/// be read from it.
pub proof fn lemma_no_representation_no_format()
    ensures
        view_url_of(Seq::empty()).len() == 0,
        format_of(view_url_of(Seq::empty())) is None,
{
    lemma_lookup_found(Seq::empty(), "full"@);
    lemma_lookup_found(Seq::empty(), "tall"@);
}

/// A read error with message `message`.
pub open spec fn logic_with(e: FerrumenaError, message: Seq<char>) -> bool {
    e is Logic && e->Logic_0@ == message
}

/// A markup error naming `selector` at `location`.
pub open spec fn dom_with(e: FerrumenaError, selector: Seq<char>, location: Seq<char>) -> bool {
    e is DomParse && e->selector@ == selector && e->location@ == location
}

/// The message for representations of image `id` that cannot be decoded.
pub open spec fn decode_message(id: u32) -> Seq<char> {
    "cannot decode the representations of image "@ + decimal(id as nat)
}

/// The message for a view URL without a format.
pub open spec fn no_format_message(url: Seq<char>) -> Seq<char> {
    "no file extension in URL: "@ + url
}

/// The message for an id attribute that is not a positive integer.
pub open spec fn bad_id_message(text: Seq<char>) -> Seq<char> {
    "invalid image id: "@ + text
}

/// Decodes the `data-uris` attribute of a card: `&quot;` stands for `"`,
/// and the result is a JSON object of strings.
pub fn parse_representations(uris_str: &str, id: u32) -> (r: Result<
    Vec<(String, String)>,
    FerrumenaError,
>)
    ensures
        match r {
            Ok(pairs) => json_string_map(unescape_quot(uris_str@)) == Some(pairs_view(pairs@))
                && keys_distinct(pairs_view(pairs@)),
            Err(e) => json_string_map(unescape_quot(uris_str@)) is None && logic_with(
                e,
                decode_message(id),
            ),
        },
{
    let unescaped = unescape_quot_text(uris_str);
    match decode_string_map(unescaped.as_str()) {
        Ok(pairs) => Ok(pairs),
        Err(_) => {
            let id_text = decimal_string(id);
            Err(logic_error("cannot decode the representations of image ", id_text.as_str()))
        },
    }
}

// ---------------------------------------------------------------------------
// Image cards
// ---------------------------------------------------------------------------

/// The record for an image with `id` and representations `pairs`: its view
/// URL and the format read from it; none where that URL has no `.`.
pub open spec fn image_record(id: u32, pairs: PairsView) -> Option<
    (u32, PairsView, Seq<char>, Seq<char>),
> {
    match format_of(view_url_of(pairs)) {
        Some(f) => Some((id, pairs, view_url_of(pairs), f)),
        None => None,
    }
}

/// The id a card's `data-image-id` attribute gives: a positive integer.
pub open spec fn card_id(id_attr: Option<Seq<char>>) -> Option<u32> {
    match id_attr {
        Some(t) => if u32_of(t) is Some && u32_of(t)->0 > 0 {
            u32_of(t)
        } else {
            None
        },
        None => None,
    }
}

/// The record a card gives, from its `data-image-id` and `data-uris`
/// attributes; none where the card is rejected.
pub open spec fn card_record(id_attr: Option<Seq<char>>, uris_attr: Option<Seq<char>>) -> Option<
    (u32, PairsView, Seq<char>, Seq<char>),
> {
    match (card_id(id_attr), uris_attr) {
        (Some(id), Some(u)) => match json_string_map(unescape_quot(u)) {
            Some(pairs) => image_record(id, pairs),
            None => None,
        },
        _ => None,
    }
}

/// Whether `e` is the error that a rejected card reports: a missing
/// attribute is a markup error naming it and the card element; an id that is
/// not a positive integer, undecodable representations (named by the id) or
/// a view URL without a format is a read error naming the offending text.
pub open spec fn card_error(
    e: FerrumenaError,
    id_attr: Option<Seq<char>>,
    uris_attr: Option<Seq<char>>,
) -> bool {
    if id_attr is None {
        dom_with(e, "data-image-id"@, "image-container"@)
    } else if card_id(id_attr) is None {
        logic_with(e, bad_id_message(id_attr->0))
    } else if uris_attr is None {
        dom_with(e, "data-uris"@, "image-container"@)
    } else if json_string_map(unescape_quot(uris_attr->0)) is None {
        logic_with(e, decode_message(card_id(id_attr)->0))
    } else {
        logic_with(e, no_format_message(view_url_of(json_string_map(unescape_quot(uris_attr->0))->0)))
    }
}

/// Builds an image record from decoded representations: the view URL is
/// picked from them, and the format is what follows its last `.`.
pub fn build_image_item(id: u32, representations: Vec<(String, String)>) -> (r: Result<
    ImageItem,
    FerrumenaError,
>)
    ensures
        match r {
            Ok(item) => image_record(id, pairs_view(representations@)) == Some(item@)
                && item.representations == representations,
            Err(e) => image_record(id, pairs_view(representations@)) is None && logic_with(
                e,
                no_format_message(view_url_of(pairs_view(representations@))),
            ),
        },
{
    let view_url = pick_view_url(&representations);
    match format_text(view_url.as_str()) {
        Some(format) => Ok(ImageItem { id, representations, view_url, format }),
        None => Err(logic_error("no file extension in URL: ", view_url.as_str())),
    }
}

/// Reads one image card from its `data-image-id` and `data-uris`
/// attributes.
pub fn parse_card(id_attr: &Option<String>, uris_attr: &Option<String>) -> (r: Result<
    ImageItem,
    FerrumenaError,
>)
    ensures
        match r {
            Ok(item) => card_record(opt_text(*id_attr), opt_text(*uris_attr)) == Some(item@)
                && keys_distinct(item@.1),
            Err(e) => card_record(opt_text(*id_attr), opt_text(*uris_attr)) is None && card_error(
                e,
                opt_text(*id_attr),
                opt_text(*uris_attr),
            ),
        },
{
    let id_text = match id_attr {
        Some(t) => t,
        None => return Err(dom_error("data-image-id", "image-container")),
    };
    let id = match parse_u32(id_text.as_str()) {
        Some(n) => {
            if n == 0 {
                return Err(logic_error("invalid image id: ", id_text.as_str()));
            }
            n
        },
        None => return Err(logic_error("invalid image id: ", id_text.as_str())),
    };
    let uris = match uris_attr {
        Some(u) => u,
        None => return Err(dom_error("data-uris", "image-container")),
    };
    let representations = parse_representations(uris.as_str(), id)?;
    build_image_item(id, representations)
}

pub open spec fn cards_ok(cards: Seq<(Option<Seq<char>>, Option<Seq<char>>)>) -> bool {
    forall|i: int| 0 <= i < cards.len() ==> (#[trigger] card_record(cards[i].0, cards[i].1)) is Some
}

/// The records of all cards, in order; none where any card is rejected.
pub open spec fn records_of(cards: Seq<(Option<Seq<char>>, Option<Seq<char>>)>) -> Option<
    Seq<(u32, PairsView, Seq<char>, Seq<char>)>,
> {
    if cards_ok(cards) {
        Some(
            cards.map_values(
                |c: (Option<Seq<char>>, Option<Seq<char>>)| card_record(c.0, c.1)->0,
            ),
        )
    } else {
        None
    }
}

/// Whether `e` is the error of the first rejected card.
pub open spec fn first_card_error(
    e: FerrumenaError,
    cards: Seq<(Option<Seq<char>>, Option<Seq<char>>)>,
) -> bool {
    exists|i: int|
        0 <= i < cards.len() && (#[trigger] card_record(cards[i].0, cards[i].1)) is None
            && card_error(e, cards[i].0, cards[i].1) && forall|j: int|
            0 <= j < i ==> (#[trigger] card_record(cards[j].0, cards[j].1)) is Some
}

pub open spec fn items_view(items: Seq<ImageItem>) -> Seq<(u32, PairsView, Seq<char>, Seq<char>)> {
    items.map_values(|item: ImageItem| item@)
}

/// Reads every card of a page; one rejected card rejects them all.
pub fn parse_cards(cards: &Vec<(Option<String>, Option<String>)>) -> (r: Result<
    Vec<ImageItem>,
    FerrumenaError,
>)
    ensures
        match r {
            Ok(items) => records_of(attr_pairs_view(cards@)) == Some(items_view(items@)),
            Err(e) => records_of(attr_pairs_view(cards@)) is None && first_card_error(
                e,
                attr_pairs_view(cards@),
            ),
        },
{
    let ghost cv = attr_pairs_view(cards@);
    let mut items: Vec<ImageItem> = Vec::new();
    let n = cards.len();
    let mut i: usize = 0;
    while i < n
        invariant
            i <= n,
            n == cards@.len(),
            cv == attr_pairs_view(cards@),
            items@.len() == i,
            forall|j: int|
                0 <= j < i ==> card_record(cv[j].0, cv[j].1) == Some(#[trigger] items@[j]@),
        decreases n - i,
    {
        let item = match parse_card(&cards[i].0, &cards[i].1) {
            Ok(item) => item,
            Err(e) => {
                assert(cv[i as int] == (opt_text(cards@[i as int].0), opt_text(
                    cards@[i as int].1,
                )));
                assert(card_record(cv[i as int].0, cv[i as int].1) is None);
                assert(!cards_ok(cv));
                assert(forall|j: int|
                    0 <= j < i ==> (#[trigger] card_record(cv[j].0, cv[j].1)) is Some) by {
                    assert forall|j: int| 0 <= j < i implies (#[trigger] card_record(
                        cv[j].0,
                        cv[j].1,
                    )) is Some by {
                        assert(card_record(cv[j].0, cv[j].1) == Some(items@[j]@));
                    }
                }
                return Err(e);
            },
        };
        assert(cv[i as int] == (opt_text(cards@[i as int].0), opt_text(cards@[i as int].1)));
        items.push(item);
        i += 1;
    }
    assert(cards_ok(cv)) by {
        assert forall|j: int| 0 <= j < cv.len() implies (#[trigger] card_record(
            cv[j].0,
            cv[j].1,
        )) is Some by {
            assert(card_record(cv[j].0, cv[j].1) == Some(items@[j]@));
        }
    }
    assert(items_view(items@) =~= cv.map_values(
        |c: (Option<Seq<char>>, Option<Seq<char>>)| card_record(c.0, c.1)->0,
    ));
    Ok(items)
}

// ---------------------------------------------------------------------------
// Result count
// ---------------------------------------------------------------------------

/// The result count that the page-info texts give: the second of them,
/// trimmed, read as an integer.
pub open spec fn total_of(texts: Seq<Seq<char>>) -> Option<u32> {
    if texts.len() >= 2 {
        u32_of(trimmed(texts[1]))
    } else {
        None
    }
}

/// Reads the result count from the emphasized texts of the page-info block.
pub fn total_from_info_texts(texts: &Vec<String>) -> (r: Result<u32, FerrumenaError>)
    ensures
        match r {
            Ok(n) => total_of(texts_view(texts@)) == Some(n),
            Err(e) => total_of(texts_view(texts@)) is None && total_error(
                e,
                Some(texts_view(texts@)),
            ),
        },
{
    if texts.len() < 2 {
        return Err(dom_error("span.page__info strong[1]", "the page info lacks a second <strong>"));
    }
    let text = trim_text(texts[1].as_str());
    assert(texts_view(texts@)[1] == texts@[1]@);
    match parse_u32(text.as_str()) {
        Some(n) => Ok(n),
        None => Err(logic_error("cannot read the result count: ", text.as_str())),
    }
}

/// Whether `e` is the error for page-info texts that give no count: a
/// markup error where the selector fails or fewer than two texts are found,
/// else a read error naming the trimmed second text.
pub open spec fn total_error(e: FerrumenaError, texts: Option<Seq<Seq<char>>>) -> bool {
    match texts {
        Some(t) => if t.len() < 2 {
            dom_with(e, "span.page__info strong[1]"@, "the page info lacks a second <strong>"@)
        } else {
            logic_with(e, "cannot read the result count: "@ + trimmed(t[1]))
        },
        None => dom_with(e, info_selector(), "page info"@),
    }
}

pub open spec fn info_selector() -> Seq<char> {
    "span.page__info strong"@
}

pub open spec fn card_selector() -> Seq<char> {
    "div.image-container"@
}

/// The result count a first page shows.
pub open spec fn page_total(html: Seq<char>) -> Option<u32> {
    match selected_inner_html(html, info_selector()) {
        Some(texts) => total_of(texts),
        None => None,
    }
}

/// Reads the result count from the markup of a first result page.
pub fn extract_total_from_first_page(html: &str) -> (r: Result<u32, FerrumenaError>)
    ensures
        match r {
            Ok(n) => page_total(html@) == Some(n),
            Err(e) => page_total(html@) is None && total_error(
                e,
                selected_inner_html(html@, info_selector()),
            ),
        },
{
    match select_inner_html(html, "span.page__info strong") {
        Some(texts) => {
            assert(texts_view(texts@).len() == texts@.len());
            total_from_info_texts(&texts)
        },
        None => Err(dom_error("span.page__info strong", "page info")),
    }
}

// ---------------------------------------------------------------------------
// Whole pages
// ---------------------------------------------------------------------------

/// What a result page yields: the result count (on page 1 only) and the
/// records of its cards; none where the page is rejected.
pub open spec fn search_page(html: Seq<char>, page: u32) -> Option<
    (Option<u32>, Seq<(u32, PairsView, Seq<char>, Seq<char>)>),
> {
    match selected_attr_pairs(html, card_selector(), "data-image-id"@, "data-uris"@) {
        Some(cards) => match records_of(cards) {
            Some(items) => if page == 1 {
                match page_total(html) {
                    Some(t) => Some((Some(t), items)),
                    None => None,
                }
            } else {
                Some((None, items))
            },
            None => None,
        },
        None => None,
    }
}

/// Whether `e` is the error of a rejected page: a markup error where the
/// card selector fails, else the error of the first rejected card, else the
/// error for the missing result count.
pub open spec fn page_error(e: FerrumenaError, html: Seq<char>) -> bool {
    match selected_attr_pairs(html, card_selector(), "data-image-id"@, "data-uris"@) {
        Some(cards) => if records_of(cards) is None {
            first_card_error(e, cards)
        } else {
            total_error(e, selected_inner_html(html, info_selector()))
        },
        None => dom_with(e, card_selector(), "search results"@),
    }
}

/// Reads a result page: every image card, and on page 1 the result count.
pub fn parse_search_page(html: &str, page: u32) -> (r: Result<PageResponse, FerrumenaError>)
    ensures
        match r {
            Ok(resp) => search_page(html@, page) == Some((resp.total, items_view(resp.images@))),
            Err(e) => search_page(html@, page) is None && page_error(e, html@),
        },
{
    let cards = match select_attribute_pairs(
        html,
        "div.image-container",
        "data-image-id",
        "data-uris",
    ) {
        Some(c) => c,
        None => return Err(dom_error("div.image-container", "search results")),
    };
    let images = parse_cards(&cards)?;
    let total = if page == 1 {
        Some(extract_total_from_first_page(html)?)
    } else {
        None
    };
    Ok(PageResponse { total, images })
}

} // verus!
