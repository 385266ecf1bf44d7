use vstd::prelude::*;
use crate::selection::{lemma_select_contains, lemma_select_partition, lemma_select_step, lemma_views_push, select, views};

verus! {

/// A set of remote links to probe.
pub struct VerifyUrlLinksCommand {
    urls: Vec<String>,
}

/// Remote links split by whether their probe succeeded.
#[derive(Debug)]
pub struct UrlLinksResult {
    pub valid_urls: Vec<String>,
    pub invalid_urls: Vec<String>,
}

/// A probe outcome counts as reachable when a response came back with a 2xx status.
/// `None` stands for any transport failure (DNS, refused connection, timeout,
/// malformed URL).
pub open spec fn reachable(outcome: Option<u16>) -> bool {
    match outcome {
        Some(status) => 200 <= status < 300,
        None => false,
    }
}

/// The reachability of each outcome.
pub open spec fn reach_flags(outcomes: Seq<Option<u16>>) -> Seq<bool> {
    outcomes.map_values(|o: Option<u16>| reachable(o))
}

/// Whether an HTTP status code is in the success class.
pub fn is_success_status(status: u16) -> (r: bool)
    ensures
        r == (200 <= status < 300),
{
    200 <= status && status < 300
}

impl View for VerifyUrlLinksCommand {
    type V = Seq<Seq<char>>;

    closed spec fn view(&self) -> Seq<Seq<char>> {
        views(self.urls@)
    }
}

impl VerifyUrlLinksCommand {
    pub fn new(urls: Vec<String>) -> (r: Self)
        ensures
            r@ == views(urls@),
    {
        VerifyUrlLinksCommand { urls }
    }

    /// The links to probe, in the order given.
    pub fn urls(&self) -> (r: &Vec<String>)
        ensures
            views(r@) == self@,
    {
        &self.urls
    }

    /// Splits the links by the outcome of their probes; `outcomes[i]` belongs to
    /// the `i`-th link. Every link lands in exactly one of the two lists, in input order.
    pub fn partition(&self, outcomes: &Vec<Option<u16>>) -> (r: UrlLinksResult)
        requires
            outcomes.len() == self@.len(),
        ensures
            views(r.valid_urls@) == select(self@, reach_flags(outcomes@), true),
            views(r.invalid_urls@) == select(self@, reach_flags(outcomes@), false),
    {
        let ghost us = self@;
        let ghost fs = reach_flags(outcomes@);
        let mut valid_urls: Vec<String> = Vec::new();
        let mut invalid_urls: Vec<String> = Vec::new();
        let n = self.urls.len();
        for i in 0..n
            invariant
                n == self.urls.len(),
                us == views(self.urls@),
                fs == reach_flags(outcomes@),
                outcomes.len() == n,
                views(valid_urls@) == select(us.take(i as int), fs.take(i as int), true),
                views(invalid_urls@) == select(us.take(i as int), fs.take(i as int), false),
        {
            proof {
                lemma_select_step(us, fs, true, i as int);
                lemma_select_step(us, fs, false, i as int);
            }
            let ok = match outcomes[i] {
                Some(status) => is_success_status(status),
                None => false,
            };
            let url = self.urls[i].clone();
            proof {
                lemma_views_push(valid_urls@, url);
                lemma_views_push(invalid_urls@, url);
            }
            if ok {
                valid_urls.push(url);
            } else {
                invalid_urls.push(url);
            }
        }
        assert(us.take(n as int) =~= us);
        assert(fs.take(n as int) =~= fs);
        UrlLinksResult { valid_urls, invalid_urls }
    }
}

/// Every link lands in exactly one of the two lists: their lengths add up to the
/// number of links.
pub proof fn lemma_url_partition_complete(urls: Seq<Seq<char>>, outcomes: Seq<Option<u16>>)
    requires
        urls.len() == outcomes.len(),
    ensures
        select(urls, reach_flags(outcomes), true).len() + select(urls, reach_flags(outcomes), false).len()
            == urls.len(),
{
    lemma_select_partition(urls, reach_flags(outcomes));
}

/// A link whose probe got a 2xx response is valid; one whose probe failed or got
/// any other status is invalid, and it is not valid.
pub proof fn lemma_url_classification(urls: Seq<Seq<char>>, outcomes: Seq<Option<u16>>, i: int)
    requires
        urls.len() == outcomes.len(),
        0 <= i < urls.len(),
        forall|k: int| 0 <= k < urls.len() && urls[k] == urls[i] ==> outcomes[k] == outcomes[i],
    ensures
        reachable(outcomes[i]) ==> select(urls, reach_flags(outcomes), true).contains(urls[i])
            && !select(urls, reach_flags(outcomes), false).contains(urls[i]),
        !reachable(outcomes[i]) ==> select(urls, reach_flags(outcomes), false).contains(urls[i])
            && !select(urls, reach_flags(outcomes), true).contains(urls[i]),
{
    let fs = reach_flags(outcomes);
    lemma_select_contains(urls, fs, true, urls[i]);
    lemma_select_contains(urls, fs, false, urls[i]);
    assert(fs[i] == reachable(outcomes[i]));
}

/// Which list a link lands in depends only on the outcome its own probe got, not
/// on the order in which the (link, outcome) pairs were gathered or by how many
/// workers: two runs that gathered the same pairs put the same links in each list.
pub proof fn lemma_url_partition_order_free(
    u1: Seq<Seq<char>>,
    o1: Seq<Option<u16>>,
    u2: Seq<Seq<char>>,
    o2: Seq<Option<u16>>,
)
    requires
        u1.len() == o1.len(),
        u2.len() == o2.len(),
        forall|i: int| 0 <= i < u1.len() ==> exists|j: int|
            0 <= j < u2.len() && #[trigger] u2[j] == #[trigger] u1[i] && o2[j] == o1[i],
        forall|j: int| 0 <= j < u2.len() ==> exists|i: int|
            0 <= i < u1.len() && #[trigger] u2[j] == #[trigger] u1[i] && o2[j] == o1[i],
    ensures
        select(u1, reach_flags(o1), true).to_set() == select(u2, reach_flags(o2), true).to_set(),
        select(u1, reach_flags(o1), false).to_set() == select(u2, reach_flags(o2), false).to_set(),
{
    let f1 = reach_flags(o1);
    let f2 = reach_flags(o2);
    assert forall|keep: bool, x: Seq<char>|
        select(u1, f1, keep).contains(x) <==> select(u2, f2, keep).contains(x) by {
        lemma_select_contains(u1, f1, keep, x);
        lemma_select_contains(u2, f2, keep, x);
        if exists|i: int| 0 <= i < u1.len() && u1[i] == x && f1[i] == keep {
            let i = choose|i: int| 0 <= i < u1.len() && u1[i] == x && f1[i] == keep;
            let j = choose|j: int| 0 <= j < u2.len() && u2[j] == u1[i] && o2[j] == o1[i];
            assert(u2[j] == x && f2[j] == keep);
        }
        if exists|j: int| 0 <= j < u2.len() && u2[j] == x && f2[j] == keep {
            let j = choose|j: int| 0 <= j < u2.len() && u2[j] == x && f2[j] == keep;
            let i = choose|i: int| 0 <= i < u1.len() && u2[j] == u1[i] && o2[j] == o1[i];
            assert(u1[i] == x && f1[i] == keep);
        }
    }
    assert(select(u1, f1, true).to_set() =~= select(u2, f2, true).to_set());
    assert(select(u1, f1, false).to_set() =~= select(u2, f2, false).to_set());
}

} // verus!
