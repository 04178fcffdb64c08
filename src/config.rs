//! The run's configuration: defaults, and the overrides a run is started with.
use crate::cli::Args;
use crate::text::{is_blank, is_blank_text};
use vstd::prelude::*;

verus! {

/// Where to crawl, how fast, and where to save.
#[derive(Debug)]
pub struct FerrumenaConfig {
    pub base_url: String,
    pub filter_id: u32,
    pub user_agent: String,
    pub cookie: String,
    /// Requests per second, for page fetches and downloads together.
    pub rps: u32,
    /// The number of download workers.
    pub concurrency: u32,
    pub save_path: String,
    /// Consecutive page failures after which no further page is fetched.
    pub max_failures: u32,
    /// The representation to download, where an image has it.
    pub representation: String,
}

pub open spec fn default_base_url_text() -> Seq<char> {
    "https://trixiebooru.org/"@
}

pub open spec fn default_user_agent_text() -> Seq<char> {
    "Ferrumena/0.1.0 (+https://github.com/RiverMint78/ferrumena)"@
}

pub fn default_base_url() -> (r: String)
    ensures
        r@ == default_base_url_text(),
{
    String::from_str("https://trixiebooru.org/")
}

pub fn default_filter_id() -> (r: u32)
    ensures
        r == 100073,
{
    100073
}

pub fn default_user_agent() -> (r: String)
    ensures
        r@ == default_user_agent_text(),
{
    String::from_str("Ferrumena/0.1.0 (+https://github.com/RiverMint78/ferrumena)")
}

pub fn default_rps() -> (r: u32)
    ensures
        r == 8,
{
    8
}

pub fn default_concurrency() -> (r: u32)
    ensures
        r == 32,
{
    32
}

pub fn default_save_path() -> (r: String)
    ensures
        r@ == "./downloads"@,
{
    String::from_str("./downloads")
}

pub fn default_max_failures() -> (r: u32)
    ensures
        r == 5,
{
    5
}

pub fn default_representation() -> (r: String)
    ensures
        r@ == "full"@,
{
    String::from_str("full")
}

impl Default for FerrumenaConfig {
    fn default() -> (r: Self)
        ensures
            r.base_url@ == default_base_url_text(),
            r.filter_id == 100073,
            r.user_agent@ == default_user_agent_text(),
            r.cookie@.len() == 0,
            r.rps == 8,
            r.concurrency == 32,
            r.save_path@ == "./downloads"@,
            r.max_failures == 5,
            r.representation@ == "full"@,
    {
        FerrumenaConfig {
            base_url: default_base_url(),
            filter_id: default_filter_id(),
            user_agent: default_user_agent(),
            cookie: String::new(),
            rps: default_rps(),
            concurrency: default_concurrency(),
            save_path: default_save_path(),
            max_failures: default_max_failures(),
            representation: default_representation(),
        }
    }
}

/// The override where there is one, else the configured text.
pub open spec fn override_text(o: Option<String>, current: String) -> Seq<char> {
    match o {
        Some(s) => s@,
        None => current@,
    }
}

pub open spec fn override_value(o: Option<u32>, current: u32) -> u32 {
    match o {
        Some(v) => v,
        None => current,
    }
}

/// `t`, or `fallback` where `t` is blank.
pub open spec fn non_blank_or(t: Seq<char>, fallback: Seq<char>) -> Seq<char> {
    if is_blank(t) {
        fallback
    } else {
        t
    }
}

fn take_override(o: &Option<String>, current: String) -> (r: String)
    ensures
        r@ == override_text(*o, current),
{
    match o {
        Some(s) => s.clone(),
        None => current,
    }
}

impl FerrumenaConfig {
    /// Applies the overrides of `args`; a blank user agent or base URL falls
    /// back to its default.
    pub fn merge_with_cli(self, args: &Args) -> (r: Self)
        ensures
            r.base_url@ == non_blank_or(
                override_text(args.base_url, self.base_url),
                default_base_url_text(),
            ),
            r.filter_id == override_value(args.filter_id, self.filter_id),
            r.user_agent@ == non_blank_or(
                override_text(args.user_agent, self.user_agent),
                default_user_agent_text(),
            ),
            r.cookie@ == override_text(args.cookie, self.cookie),
            r.rps == override_value(args.rps, self.rps),
            r.concurrency == override_value(args.concurrency, self.concurrency),
            r.save_path@ == override_text(args.save_path, self.save_path),
            r.max_failures == self.max_failures,
            r.representation@ == self.representation@,
    {
        let mut base_url = take_override(&args.base_url, self.base_url);
        let filter_id = match args.filter_id {
            Some(id) => id,
            None => self.filter_id,
        };
        let mut user_agent = take_override(&args.user_agent, self.user_agent);
        let cookie = take_override(&args.cookie, self.cookie);
        let rps = match args.rps {
            Some(v) => v,
            None => self.rps,
        };
        let concurrency = match args.concurrency {
            Some(v) => v,
            None => self.concurrency,
        };
        let save_path = take_override(&args.save_path, self.save_path);
        if is_blank_text(user_agent.as_str()) {
            user_agent = default_user_agent();
        }
        if is_blank_text(base_url.as_str()) {
            base_url = default_base_url();
        }
        FerrumenaConfig {
            base_url,
            filter_id,
            user_agent,
            cookie,
            rps,
            concurrency,
            save_path,
            max_failures: self.max_failures,
            representation: self.representation,
        }
    }
}

} // verus!
