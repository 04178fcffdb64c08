//! What the HTTP client is set up with, and the search URLs it requests.
use crate::cli::{sort_field_name, sort_order_name, Args};
use crate::config::FerrumenaConfig;
use crate::error::FerrumenaError;
use crate::text::{decimal, decimal_string};
use vstd::prelude::*;

verus! {

/// The percent-encoded form of a text, for use in a query string.
pub uninterp spec fn url_encoded(s: Seq<char>) -> Seq<char>;

/// Relies on `urlencoding::encode`: each UTF-8 byte of `s` other than an
/// ASCII letter, digit, `-`, `.`, `_` or `~` becomes `%` and two hex digits.
#[verifier::external_body]
fn encode_query(s: &str) -> (r: String)
    ensures
        r@ == url_encoded(s@),
{
    urlencoding::encode(s).into_owned()
}

/// The URL of one search result page.
pub open spec fn search_url_text(
    base_url: Seq<char>,
    page: u32,
    per_page: u32,
    direction: Seq<char>,
    field: Seq<char>,
    filter_id: u32,
    encoded_query: Seq<char>,
) -> Seq<char> {
    base_url + "search?page="@ + decimal(page as nat) + "&per_page="@ + decimal(per_page as nat)
        + "&sd="@ + direction + "&sf="@ + field + "&filter_id="@ + decimal(filter_id as nat)
        + "&q="@ + encoded_query
}

/// The filter a search runs with: the one the options name, else the
/// configured one.
pub open spec fn search_filter(args: Args, config: FerrumenaConfig) -> u32 {
    match args.filter_id {
        Some(id) => id,
        None => config.filter_id,
    }
}

/// Assembles a search URL from its parts; the query is already encoded.
pub fn search_url_with(
    base_url: &str,
    page: u32,
    per_page: u32,
    direction: &str,
    field: &str,
    filter_id: u32,
    encoded_query: &str,
) -> (r: String)
    ensures
        r@ == search_url_text(
            base_url@,
            page,
            per_page,
            direction@,
            field@,
            filter_id,
            encoded_query@,
        ),
{
    let mut s = String::from_str(base_url);
    s.append("search?page=");
    s.append(decimal_string(page).as_str());
    s.append("&per_page=");
    s.append(decimal_string(per_page).as_str());
    s.append("&sd=");
    s.append(direction);
    s.append("&sf=");
    s.append(field);
    s.append("&filter_id=");
    s.append(decimal_string(filter_id).as_str());
    s.append("&q=");
    s.append(encoded_query);
    s
}

/// The URL of result page `page` for the search that `args` describes.
pub fn search_url(config: &FerrumenaConfig, args: &Args, page: u32) -> (r: String)
    ensures
        exists|seed: u32|
            r@ == search_url_text(
                config.base_url@,
                page,
                args.per_page,
                sort_order_name(args.sort_direction),
                sort_field_name(args.sort_field, seed),
                search_filter(*args, *config),
                url_encoded(args.query@),
            ),
{
    let direction = args.sort_direction.to_api_string();
    let field = args.sort_field.to_api_string();
    let ghost seed = choose|seed: u32| field@ == sort_field_name(args.sort_field, seed);
    let filter_id = match args.filter_id {
        Some(id) => id,
        None => config.filter_id,
    };
    let query = encode_query(args.query.as_str());
    let r = search_url_with(
        config.base_url.as_str(),
        page,
        args.per_page,
        direction.as_str(),
        field.as_str(),
        filter_id,
        query.as_str(),
    );
    assert(r@ == search_url_text(
        config.base_url@,
        page,
        args.per_page,
        sort_order_name(args.sort_direction),
        sort_field_name(args.sort_field, seed),
        search_filter(*args, *config),
        url_encoded(args.query@),
    ));
    r
}

/// The cookie header: the configured cookies, closed with `;` and a space
/// where there are any, then the filter.
pub open spec fn cookie_text(cookie: Seq<char>, filter_id: u32) -> Seq<char> {
    let head = if cookie.len() == 0 {
        Seq::empty()
    } else if cookie.last() == ';' {
        cookie.push(' ')
    } else {
        cookie.push(';').push(' ')
    };
    head + "filter_id="@ + decimal(filter_id as nat) + ";"@
}

/// Builds the cookie header that selects the content filter.
pub fn cookie_header(cookie: &str, filter_id: u32) -> (r: String)
    ensures
        r@ == cookie_text(cookie@, filter_id),
{
    proof {
        reveal_strlit("; ");
        reveal_strlit(" ");
    }
    let len = cookie.unicode_len();
    let mut s = String::from_str(cookie);
    if len > 0 {
        if cookie.get_char(len - 1) == ';' {
            s.append(" ");
            assert(s@ =~= cookie@.push(' '));
        } else {
            s.append("; ");
            assert(s@ =~= cookie@.push(';').push(' '));
        }
    } else {
        assert(s@ =~= Seq::<char>::empty());
    }
    s.append("filter_id=");
    s.append(decimal_string(filter_id).as_str());
    s.append(";");
    s
}

/// The values the HTTP client is built from.
#[derive(Debug)]
pub struct ClientSettings {
    pub user_agent: String,
    pub cookie: String,
    /// Requests per second; never zero.
    pub rps: u32,
}

/// Checks the configuration and derives the client's settings; a zero
/// request rate is refused.
pub fn client_settings(config: &FerrumenaConfig) -> (r: Result<ClientSettings, FerrumenaError>)
    ensures
        match r {
            Ok(s) => config.rps > 0 && s.rps == config.rps && s.user_agent@ == config.user_agent@
                && s.cookie@ == cookie_text(config.cookie@, config.filter_id),
            Err(e) => config.rps == 0 && e is Config,
        },
{
    if config.rps == 0 {
        return Err(FerrumenaError::Config(String::from_str("the request rate must be above zero")));
    }
    Ok(ClientSettings {
        user_agent: config.user_agent.clone(),
        cookie: cookie_header(config.cookie.as_str(), config.filter_id),
        rps: config.rps,
    })
}

} // verus!
