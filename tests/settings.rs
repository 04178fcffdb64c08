use ferrumena::cli::{Args, SortField, SortOrder};
use ferrumena::client::{client_settings, cookie_header, search_url, search_url_with};
use ferrumena::config::{
    default_base_url, default_concurrency, default_filter_id, default_max_failures,
    default_representation, default_rps, default_save_path, default_user_agent, FerrumenaConfig,
};
use ferrumena::error::FerrumenaError;

fn args() -> Args {
    Args {
        query: "safe".to_string(),
        sort_field: SortField::Id,
        sort_direction: SortOrder::Desc,
        per_page: 50,
        limit: None,
        base_url: None,
        filter_id: None,
        user_agent: None,
        cookie: None,
        rps: None,
        concurrency: None,
        save_path: None,
    }
}

#[test]
fn sort_fields_have_api_names() {
    assert_eq!(SortField::Id.to_api_string(), "id");
    assert_eq!(SortField::Relevance.to_api_string(), "_score");
    assert_eq!(SortField::UpdatedAt.to_api_string(), "updated_at");
    assert_eq!(SortField::AspectRatio.to_api_string(), "aspect_ratio");
    assert_eq!(SortField::CommentCount.to_api_string(), "comment_count");
    assert_eq!(SortField::TagCount.to_api_string(), "tag_count");
    assert_eq!(SortField::Duration.to_api_string(), "duration");
    assert_eq!(SortOrder::Asc.to_api_string(), "asc");
    assert_eq!(SortOrder::Desc.to_api_string(), "desc");
}

#[test]
fn random_sort_carries_a_seed() {
    let s = SortField::Random.to_api_string();
    assert!(s.starts_with("random:"));
    let seed = &s["random:".len()..];
    assert!(!seed.is_empty());
    assert!(seed.parse::<u32>().is_ok());
    assert_eq!(SortField::Random.api_string_with_seed(1234), "random:1234");
}

#[test]
fn defaults_match_the_documented_values() {
    let c = FerrumenaConfig::default();
    assert_eq!(c.base_url, "https://trixiebooru.org/");
    assert_eq!(c.filter_id, 100073);
    assert_eq!(c.cookie, "");
    assert_eq!(c.rps, 8);
    assert_eq!(c.concurrency, 32);
    assert_eq!(c.save_path, "./downloads");
    assert_eq!(default_base_url(), c.base_url);
    assert_eq!(default_filter_id(), 100073);
    assert_eq!(default_user_agent(), c.user_agent);
    assert!(c.user_agent.starts_with("Ferrumena/"));
    assert_eq!(default_rps(), 8);
    assert_eq!(default_concurrency(), 32);
    assert_eq!(default_save_path(), "./downloads");
    assert_eq!(default_max_failures(), c.max_failures);
    assert_eq!(default_representation(), "full");
}

#[test]
fn merge_applies_overrides() {
    let mut a = args();
    a.base_url = Some("https://derpibooru.org/".to_string());
    a.filter_id = Some(56027);
    a.cookie = Some("session=abc".to_string());
    a.rps = Some(2);
    a.concurrency = Some(4);
    a.save_path = Some("/tmp/pics".to_string());
    let c = FerrumenaConfig::default().merge_with_cli(&a);
    assert_eq!(c.base_url, "https://derpibooru.org/");
    assert_eq!(c.filter_id, 56027);
    assert_eq!(c.cookie, "session=abc");
    assert_eq!(c.rps, 2);
    assert_eq!(c.concurrency, 4);
    assert_eq!(c.save_path, "/tmp/pics");
}

#[test]
fn merge_keeps_config_without_overrides() {
    let c = FerrumenaConfig::default().merge_with_cli(&args());
    assert_eq!(c.base_url, "https://trixiebooru.org/");
    assert_eq!(c.filter_id, 100073);
    assert_eq!(c.rps, 8);
}

#[test]
fn merge_replaces_blank_agent_and_url() {
    let mut a = args();
    a.user_agent = Some("   ".to_string());
    a.base_url = Some("".to_string());
    let c = FerrumenaConfig::default().merge_with_cli(&a);
    assert_eq!(c.user_agent, default_user_agent());
    assert_eq!(c.base_url, default_base_url());
}

#[test]
fn search_url_has_all_parameters() {
    let u = search_url_with("https://b/", 3, 50, "desc", "id", 100073, "pony%20OR%20safe");
    assert_eq!(
        u,
        "https://b/search?page=3&per_page=50&sd=desc&sf=id&filter_id=100073&q=pony%20OR%20safe"
    );
}

#[test]
fn search_url_encodes_the_query() {
    let mut a = args();
    a.query = "pony OR safe".to_string();
    a.sort_direction = SortOrder::Asc;
    a.sort_field = SortField::Relevance;
    a.filter_id = Some(5);
    let c = FerrumenaConfig::default();
    assert_eq!(
        search_url(&c, &a, 1),
        "https://trixiebooru.org/search?page=1&per_page=50&sd=asc&sf=_score&filter_id=5&q=pony%20OR%20safe"
    );
    a.filter_id = None;
    a.query = "a&b".to_string();
    assert!(search_url(&c, &a, 2).ends_with("&filter_id=100073&q=a%26b"));
}

#[test]
fn cookie_header_appends_filter() {
    assert_eq!(cookie_header("", 7), "filter_id=7;");
    assert_eq!(cookie_header("a=1", 7), "a=1; filter_id=7;");
    assert_eq!(cookie_header("a=1;", 7), "a=1; filter_id=7;");
}

#[test]
fn client_settings_refuses_zero_rate() {
    let mut c = FerrumenaConfig::default();
    c.rps = 0;
    assert!(matches!(client_settings(&c), Err(FerrumenaError::Config(_))));
    c.rps = 3;
    c.cookie = "k=v".to_string();
    let s = client_settings(&c).unwrap();
    assert_eq!(s.rps, 3);
    assert_eq!(s.cookie, "k=v; filter_id=100073;");
    assert_eq!(s.user_agent, c.user_agent);
}

#[test]
fn error_variants_can_be_built() {
    let e = FerrumenaError::Network("timeout".to_string());
    assert!(matches!(e, FerrumenaError::Network(_)));
    let e = FerrumenaError::Io("denied".to_string());
    assert!(matches!(e, FerrumenaError::Io(_)));
    let e = FerrumenaError::Unknown("?".to_string());
    assert!(matches!(e, FerrumenaError::Unknown(_)));
}
