//! The decisions of a crawl: how many pages to read, when to stop reading
//! them, which task each image becomes, and which tasks need a download.
use crate::error::{logic_error, FerrumenaError};
use crate::markup::lookup_representation;
use crate::models::{lookup, DownloadTask, ImageItem, PairsView};
use crate::text::{
    decimal, decimal_string, format_of, is_digit, last_dot, lemma_decimal,
    lemma_decimal_injective, lemma_last_dot, lemma_u32_of_decimal, parse_u32, stem_of, stem_text,
    u32_of,
};
use std::collections::HashSet;
use vstd::prelude::*;

verus! {

broadcast use vstd::std_specs::hash::group_hash_axioms;

// ---------------------------------------------------------------------------
// How many pages
// ---------------------------------------------------------------------------

/// The number of images to fetch: the limit where it is below the total.
pub open spec fn target_of(limit: Option<u32>, total: u32) -> u32 {
    match limit {
        Some(l) => if l < total {
            l
        } else {
            total
        },
        None => total,
    }
}

/// The number of pages of `per_page` images that `target` images fill.
pub open spec fn pages_for(target: u32, per_page: u32) -> int {
    (target + per_page - 1) / per_page as int
}

/// How much a run fetches.
#[derive(Debug, Clone, Copy)]
pub struct CrawlPlan {
    pub target_count: u32,
    pub total_pages: u32,
}

/// Plans a run from the result count of the first page, the optional limit
/// and the page size.
pub fn plan_crawl(total: Option<u32>, limit: Option<u32>, per_page: u32) -> (r: Result<
    CrawlPlan,
    FerrumenaError,
>)
    requires
        per_page > 0,
    ensures
        match r {
            Ok(p) => total is Some && p.target_count == target_of(limit, total->0)
                && p.total_pages == pages_for(p.target_count, per_page),
            Err(e) => total is None && e is Logic,
        },
{
    let total = match total {
        Some(t) => t,
        None => return Err(logic_error("the first page gave no result count", "")),
    };
    let target = match limit {
        Some(l) => if l < total {
            l
        } else {
            total
        },
        None => total,
    };
    let pages: u64 = (target as u64 + per_page as u64 - 1) / (per_page as u64);
    assert(pages <= target || pages == 0) by (nonlinear_arith)
        requires
            pages == (target + per_page - 1) / (per_page as int),
            per_page >= 1,
            target >= 0,
    ;
    Ok(CrawlPlan { target_count: target, total_pages: pages as u32 })
}

// ---------------------------------------------------------------------------
// Reading pages, with a circuit breaker
// ---------------------------------------------------------------------------

/// What the page reader does next.
#[derive(Debug, Clone, Copy, PartialEq, Eq, Structural)]
pub enum ProducerStep {
    /// Fetch and parse this page.
    Fetch(u32),
    /// Fetch nothing more: close the task queue.
    Close,
}

/// The page reader: pages are read one at a time in increasing order, and
/// too many failures in a row stop the reading.
#[derive(Debug, Clone, Copy)]
pub struct PageProducer {
    /// The page to read next.
    pub next_page: u64,
    pub total_pages: u32,
    /// Failures since the last page that was read.
    pub failures: u32,
    pub max_failures: u32,
    /// Whether the failures reached `max_failures`.
    pub tripped: bool,
}

impl PageProducer {
    pub open spec fn wf(&self) -> bool {
        &&& 1 <= self.next_page <= self.total_pages as int + 1
        &&& !self.tripped ==> (self.failures == 0 || self.failures < self.max_failures)
    }

    pub open spec fn step(&self) -> ProducerStep {
        if self.tripped || self.next_page > self.total_pages {
            ProducerStep::Close
        } else {
            ProducerStep::Fetch(self.next_page as u32)
        }
    }

    /// The reader after the page it fetched was read.
    pub open spec fn after_success(&self) -> PageProducer {
        PageProducer { next_page: (self.next_page + 1) as u64, failures: 0, ..*self }
    }

    /// The reader after the page it fetched failed.
    pub open spec fn after_failure(&self) -> PageProducer {
        PageProducer {
            next_page: (self.next_page + 1) as u64,
            failures: (self.failures + 1) as u32,
            tripped: self.failures + 1 >= self.max_failures,
            ..*self
        }
    }

    /// A reader for pages `1..=total_pages`.
    pub fn new(total_pages: u32, max_failures: u32) -> (r: PageProducer)
        ensures
            r.wf(),
            r.next_page == 1,
            r.total_pages == total_pages,
            r.failures == 0,
            r.max_failures == max_failures,
            !r.tripped,
    {
        PageProducer { next_page: 1, total_pages, failures: 0, max_failures, tripped: false }
    }

    /// What to do next.
    pub fn next_step(&self) -> (r: ProducerStep)
        requires
            self.wf(),
        ensures
            r == self.step(),
    {
        if self.tripped || self.next_page > self.total_pages as u64 {
            ProducerStep::Close
        } else {
            ProducerStep::Fetch(self.next_page as u32)
        }
    }

    /// Records that the page it fetched was read: the failure count starts
    /// over.
    pub fn page_succeeded(&mut self)
        requires
            old(self).wf(),
            old(self).step() is Fetch,
        ensures
            *final(self) == old(self).after_success(),
            final(self).wf(),
    {
        self.next_page = self.next_page + 1;
        self.failures = 0;
    }

    /// Records that the page it fetched failed; the reader stops once the
    /// failures in a row reach the maximum.
    pub fn page_failed(&mut self)
        requires
            old(self).wf(),
            old(self).step() is Fetch,
        ensures
            *final(self) == old(self).after_failure(),
            final(self).wf(),
    {
        self.next_page = self.next_page + 1;
        self.failures = self.failures + 1;
        self.tripped = self.failures >= self.max_failures;
    }
}

/// `n` failures in a row.
pub open spec fn fail_times(p: PageProducer, n: nat) -> PageProducer
    decreases n,
{
    if n == 0 {
        p
    } else {
        fail_times(p, (n - 1) as nat).after_failure()
    }
}

/// The failure that brings the count to the maximum closes the reader at
/// once: no later page is fetched, whatever remains of the plan.
pub proof fn lemma_breaker_stops_reading(p: PageProducer)
    requires
        p.wf(),
        p.step() is Fetch,
        p.failures + 1 >= p.max_failures,
    ensures
        p.after_failure().tripped,
        p.after_failure().step() == ProducerStep::Close,
{
}

/// From a reader that has not tripped, as many failures in a row as the
/// maximum allows trip it, provided the plan has that many pages left;
/// the pages after them are never fetched.
pub proof fn lemma_consecutive_failures_trip(p: PageProducer)
    requires
        p.wf(),
        !p.tripped,
        p.failures < p.max_failures,
        p.next_page + (p.max_failures - p.failures) <= p.total_pages + 1,
    ensures
        fail_times(p, (p.max_failures - p.failures) as nat).tripped,
        fail_times(p, (p.max_failures - p.failures) as nat).step() == ProducerStep::Close,
        fail_times(p, (p.max_failures - p.failures) as nat).next_page == p.next_page + (
        p.max_failures - p.failures),
{
    let n = (p.max_failures - p.failures) as nat;
    assert forall|k: nat| k <= n implies {
        let q = #[trigger] fail_times(p, k);
        &&& q.next_page == p.next_page + k
        &&& q.failures == p.failures + k
        &&& q.tripped == (k > 0 && p.failures + k >= p.max_failures)
        &&& q.total_pages == p.total_pages
        &&& q.max_failures == p.max_failures
    } by {
        lemma_fail_times_counts(p, k, n);
    }
}

proof fn lemma_fail_times_counts(p: PageProducer, k: nat, n: nat)
    requires
        p.wf(),
        !p.tripped,
        p.failures < p.max_failures,
        n == p.max_failures - p.failures,
        k <= n,
    ensures
        fail_times(p, k).next_page == p.next_page + k,
        fail_times(p, k).failures == p.failures + k,
        fail_times(p, k).tripped == (k > 0 && p.failures + k >= p.max_failures),
        fail_times(p, k).total_pages == p.total_pages,
        fail_times(p, k).max_failures == p.max_failures,
    decreases k,
{
    if k > 0 {
        lemma_fail_times_counts(p, (k - 1) as nat, n);
    }
}

/// A reading that succeeds starts the failure count over.
pub proof fn lemma_success_resets_failures(p: PageProducer)
    requires
        p.wf(),
        p.step() is Fetch,
    ensures
        p.after_success().failures == 0,
        !p.after_success().tripped,
{
}

// ---------------------------------------------------------------------------
// Tasks
// ---------------------------------------------------------------------------

/// The URL to download an image from: its representation named
/// `representation`, else its view URL.
pub open spec fn task_url(
    image: (u32, PairsView, Seq<char>, Seq<char>),
    representation: Seq<char>,
) -> Seq<char> {
    match lookup(image.1, representation) {
        Some(u) => u,
        None => image.2,
    }
}

/// The download task for one image, and whether it falls back to the view
/// URL because the image lacks the representation.
pub fn task_for_image(image: &ImageItem, representation: &str) -> (r: (DownloadTask, bool))
    ensures
        r.0.id == image.id,
        r.0.url@ == task_url(image@, representation@),
        r.0.file_ext@ == image.format@,
        r.1 == (lookup(image@.1, representation@) is None),
{
    match lookup_representation(&image.representations, representation) {
        Some(u) => (DownloadTask { id: image.id, url: u, file_ext: image.format.clone() }, false),
        None => (
            DownloadTask { id: image.id, url: image.view_url.clone(), file_ext: image.format.clone() },
            true,
        ),
    }
}

// ---------------------------------------------------------------------------
// Files already saved
// ---------------------------------------------------------------------------

/// One entry of the save directory.
#[derive(Debug)]
pub struct LocalFile {
    pub name: String,
    /// Whether the entry is a regular file.
    pub is_file: bool,
}

/// The image id a file name stands for: its stem, read as an integer.
pub open spec fn file_id(name: Seq<char>) -> Option<u32> {
    u32_of(stem_of(name))
}

/// The ids of the images that the regular files among `entries` hold.
pub open spec fn inventory_of(entries: Seq<LocalFile>) -> Set<u32> {
    Set::new(
        |n: u32|
            exists|i: int|
                0 <= i < entries.len() && #[trigger] entries[i].is_file && file_id(entries[i].name@)
                    == Some(n),
    )
}

/// Adding one entry adds the id it holds, if any.
proof fn lemma_inventory_push(entries: Seq<LocalFile>, e: LocalFile)
    ensures
        inventory_of(entries.push(e)) == if e.is_file && file_id(e.name@) is Some {
            inventory_of(entries).insert(file_id(e.name@)->0)
        } else {
            inventory_of(entries)
        },
{
    let after = entries.push(e);
    let expected = if e.is_file && file_id(e.name@) is Some {
        inventory_of(entries).insert(file_id(e.name@)->0)
    } else {
        inventory_of(entries)
    };
    assert forall|m: u32| inventory_of(after).contains(m) implies expected.contains(m) by {
        let j = choose|j: int|
            0 <= j < after.len() && #[trigger] after[j].is_file && file_id(after[j].name@) == Some(
                m,
            );
        if j < entries.len() {
            assert(after[j] == entries[j]);
            assert(entries[j].is_file);
        }
    }
    assert forall|m: u32| expected.contains(m) implies inventory_of(after).contains(m) by {
        if inventory_of(entries).contains(m) {
            let j = choose|j: int|
                0 <= j < entries.len() && #[trigger] entries[j].is_file && file_id(
                    entries[j].name@,
                ) == Some(m);
            assert(after[j] == entries[j]);
            assert(after[j].is_file);
        } else {
            assert(after[entries.len() as int] == e);
            assert(after[entries.len() as int].is_file);
        }
    }
    assert(inventory_of(after) =~= expected);
}

/// Collects the ids of the images already saved, from the entries of the
/// save directory; names that are not an id are passed over.
pub fn inventory_from_entries(entries: &Vec<LocalFile>) -> (r: HashSet<u32>)
    ensures
        r@ == inventory_of(entries@),
{
    let mut ids: HashSet<u32> = HashSet::new();
    let n = entries.len();
    let mut i: usize = 0;
    assert(ids@ =~= inventory_of(entries@.subrange(0, 0)));
    while i < n
        invariant
            i <= n,
            n == entries@.len(),
            ids@ == inventory_of(entries@.subrange(0, i as int)),
        decreases n - i,
    {
        assert(entries@.subrange(0, i + 1) =~= entries@.subrange(0, i as int).push(
            entries@[i as int],
        ));
        proof {
            lemma_inventory_push(entries@.subrange(0, i as int), entries@[i as int]);
        }
        if entries[i].is_file {
            let stem = stem_text(entries[i].name.as_str());
            match parse_u32(stem.as_str()) {
                Some(id) => {
                    ids.insert(id);
                },
                None => {},
            }
        }
        i += 1;
    }
    assert(entries@.subrange(0, n as int) =~= entries@);
    ids
}

// ---------------------------------------------------------------------------
// Downloads
// ---------------------------------------------------------------------------

/// The name of the file that an image is saved to: `<id>.<ext>`.
pub open spec fn file_name_of(id: u32, ext: Seq<char>) -> Seq<char> {
    decimal(id as nat) + seq!['.'] + ext
}

/// The name of the file that a task writes.
pub fn file_name(task: &DownloadTask) -> (r: String)
    ensures
        r@ == file_name_of(task.id, task.file_ext@),
{
    proof {
        reveal_strlit(".");
    }
    let mut s = decimal_string(task.id);
    s.append(".");
    s.append(task.file_ext.as_str());
    s
}

/// What a download worker does with one task.
#[derive(Debug)]
pub enum WorkerAction {
    /// The image is saved already: no request is made.
    Skip,
    /// Fetch `url` and write the body to `file_name` in the save directory.
    Download { url: String, file_name: String },
}

/// Decides what a worker does with a task: skip an image that is saved
/// already, else download it to `<id>.<ext>`.
pub fn plan_download(task: &DownloadTask, existing: &HashSet<u32>) -> (r: WorkerAction)
    ensures
        r is Skip <==> existing@.contains(task.id),
        r is Download ==> r->url@ == task.url@ && r->file_name@ == file_name_of(
            task.id,
            task.file_ext@,
        ),
{
    if existing.contains(&task.id) {
        WorkerAction::Skip
    } else {
        WorkerAction::Download { url: task.url.clone(), file_name: file_name(task) }
    }
}

pub open spec fn has_no_dot(s: Seq<char>) -> bool {
    forall|i: int| 0 <= i < s.len() ==> s[i] != '.'
}

/// A format read from a URL holds no `.`.
pub proof fn lemma_format_has_no_dot(url: Seq<char>)
    ensures
        format_of(url) matches Some(f) ==> has_no_dot(f),
{
    lemma_last_dot(url);
    if format_of(url) is Some {
        let k = last_dot(url);
        let f = format_of(url)->0;
        assert forall|i: int| 0 <= i < f.len() implies f[i] != '.' by {
            assert(f[i] == url[k + 1 + i]);
        }
    }
}

/// The file an image is saved to is read back as that image: the stem of
/// `<id>.<ext>` is the id, for any extension without a `.`.
pub proof fn lemma_saved_file_read_back(id: u32, ext: Seq<char>)
    requires
        has_no_dot(ext),
    ensures
        file_id(file_name_of(id, ext)) == Some(id),
{
    let d = decimal(id as nat);
    let name = file_name_of(id, ext);
    lemma_decimal(id as nat);
    lemma_u32_of_decimal(id);
    crate::text::lemma_last_dot_append(d + seq!['.'], ext);
    assert(name == (d + seq!['.']) + ext);
    let p = d + seq!['.'];
    assert(p.last() == '.');
    assert(last_dot(p) == d.len());
    assert(name.subrange(0, d.len() as int) =~= d);
}

/// Running again over the same results and an unchanged save directory
/// downloads nothing: each task's file is in the directory, so each task's
/// id is in the inventory, and a worker skips it.
pub proof fn lemma_rerun_downloads_nothing(
    tasks: Seq<(u32, Seq<char>, Seq<char>)>,
    entries: Seq<LocalFile>,
)
    requires
        forall|k: int| 0 <= k < tasks.len() ==> has_no_dot(#[trigger] tasks[k].2),
        forall|k: int|
            0 <= k < tasks.len() ==> exists|i: int|
                0 <= i < entries.len() && entries[i].is_file && entries[i].name@ == file_name_of(
                    (#[trigger] tasks[k]).0,
                    tasks[k].2,
                ),
    ensures
        forall|k: int| 0 <= k < tasks.len() ==> inventory_of(entries).contains(#[trigger] tasks[k].0),
{
    assert forall|k: int| 0 <= k < tasks.len() implies inventory_of(entries).contains(
        #[trigger] tasks[k].0,
    ) by {
        let t = tasks[k];
        let i = choose|i: int|
            0 <= i < entries.len() && entries[i].is_file && entries[i].name@ == file_name_of(
                t.0,
                t.2,
            );
        lemma_saved_file_read_back(t.0, t.2);
        assert(entries[i].is_file && file_id(entries[i].name@) == Some(t.0));
    }
}

/// Tasks for different images write different files, so no two workers
/// write the same path unless the results list one image twice.
pub proof fn lemma_distinct_ids_distinct_files(a: u32, ext_a: Seq<char>, b: u32, ext_b: Seq<char>)
    requires
        a != b,
    ensures
        file_name_of(a, ext_a) != file_name_of(b, ext_b),
{
    let da = decimal(a as nat);
    let db = decimal(b as nat);
    let na = file_name_of(a, ext_a);
    let nb = file_name_of(b, ext_b);
    lemma_decimal(a as nat);
    lemma_decimal(b as nat);
    if na == nb {
        assert(na[da.len() as int] == '.');
        assert(nb[db.len() as int] == '.');
        if da.len() < db.len() {
            assert(nb[da.len() as int] == db[da.len() as int]);
            assert(is_digit(db[da.len() as int]));
        } else if db.len() < da.len() {
            assert(na[db.len() as int] == da[db.len() as int]);
            assert(is_digit(da[db.len() as int]));
        } else {
            assert(da =~= na.subrange(0, da.len() as int));
            assert(db =~= nb.subrange(0, db.len() as int));
            lemma_decimal_injective(a, b);
        }
    }
}

} // verus!
