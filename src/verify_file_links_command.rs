use vstd::prelude::*;
use crate::selection::{lemma_select_contains, lemma_select_len, lemma_select_step, lemma_views_push, select, views};

verus! {

/// A set of local links to check.
pub struct VerifyFileLinksCommand {
    paths: Vec<String>,
}

/// What the file system said of one local link: the file is there, or it is
/// missing and these are the similar paths found for it (possibly none).
#[derive(Debug)]
pub enum PathCheck {
    Found,
    Missing(Vec<String>),
}

/// A local link whose file is missing, with the similar paths found for it.
#[derive(Debug)]
pub struct BrokenLink {
    pub path: String,
    pub suggestions: Vec<String>,
}

/// Local links split into those whose file exists and those that are broken.
#[derive(Debug)]
pub struct FileLinksResult {
    pub broken_links: Vec<BrokenLink>,
    pub ok_links: Vec<String>,
}

impl View for PathCheck {
    type V = Option<Seq<Seq<char>>>;

    open spec fn view(&self) -> Option<Seq<Seq<char>>> {
        match self {
            PathCheck::Found => None,
            PathCheck::Missing(s) => Some(views(s@)),
        }
    }
}

impl View for BrokenLink {
    type V = (Seq<char>, Seq<Seq<char>>);

    open spec fn view(&self) -> (Seq<char>, Seq<Seq<char>>) {
        (self.path@, views(self.suggestions@))
    }
}

impl View for VerifyFileLinksCommand {
    type V = Seq<Seq<char>>;

    closed spec fn view(&self) -> Seq<Seq<char>> {
        views(self.paths@)
    }
}

/// The views of a sequence of checks.
pub open spec fn check_views(checks: Seq<PathCheck>) -> Seq<Option<Seq<Seq<char>>>> {
    checks.map_values(|c: PathCheck| c@)
}

/// Whether each check found its file.
pub open spec fn found_flags(checks: Seq<Option<Seq<Seq<char>>>>) -> Seq<bool> {
    checks.map_values(|c: Option<Seq<Seq<char>>>| c is None)
}

/// Each path paired with the suggestions of its check (meaningful where the file is missing).
pub open spec fn with_suggestions(
    paths: Seq<Seq<char>>,
    checks: Seq<Option<Seq<Seq<char>>>>,
) -> Seq<(Seq<char>, Seq<Seq<char>>)> {
    Seq::new(paths.len(), |i: int| (paths[i], checks[i].unwrap_or(Seq::empty())))
}

/// The paths whose file exists, in input order.
pub open spec fn ok_paths(
    paths: Seq<Seq<char>>,
    checks: Seq<Option<Seq<Seq<char>>>>,
) -> Seq<Seq<char>> {
    select(paths, found_flags(checks), true)
}

/// The paths whose file is missing, each with its suggestions, in input order.
pub open spec fn broken_paths(
    paths: Seq<Seq<char>>,
    checks: Seq<Option<Seq<Seq<char>>>>,
) -> Seq<(Seq<char>, Seq<Seq<char>>)> {
    select(with_suggestions(paths, checks), found_flags(checks), false)
}

/// The views of a sequence of broken links.
pub open spec fn broken_views(v: Seq<BrokenLink>) -> Seq<(Seq<char>, Seq<Seq<char>>)> {
    v.map_values(|b: BrokenLink| b@)
}

impl VerifyFileLinksCommand {
    pub fn new(paths: Vec<String>) -> (r: Self)
        ensures
            r@ == views(paths@),
    {
        VerifyFileLinksCommand { paths }
    }

    /// The links to check, in the order given.
    pub fn paths(&self) -> (r: &Vec<String>)
        ensures
            views(r@) == self@,
    {
        &self.paths
    }

    /// Sorts the links by what their checks found; `checks[i]` belongs to the
    /// `i`-th link. Every link lands in exactly one of the two lists, in input order.
    pub fn collect(&self, checks: Vec<PathCheck>) -> (r: FileLinksResult)
        requires
            checks.len() == self@.len(),
        ensures
            views(r.ok_links@) == ok_paths(self@, check_views(checks@)),
            broken_views(r.broken_links@) == broken_paths(self@, check_views(checks@)),
    {
        let ghost ps = self@;
        let ghost cs = check_views(checks@);
        let ghost fs = found_flags(cs);
        let ghost pairs = with_suggestions(ps, cs);
        let mut ok_links: Vec<String> = Vec::new();
        let mut broken_links: Vec<BrokenLink> = Vec::new();
        let mut i: usize = 0;
        for c in it: checks.into_iter()
            invariant
                i == it.index(),
                it.seq() == checks@,
                checks.len() == self.paths.len(),
                ps == views(self.paths@),
                cs == check_views(checks@),
                fs == found_flags(cs),
                pairs == with_suggestions(ps, cs),
                views(ok_links@) == select(ps.take(i as int), fs.take(i as int), true),
                broken_views(broken_links@) == select(pairs.take(i as int), fs.take(i as int), false),
        {
            proof {
                lemma_select_step(ps, fs, true, i as int);
                lemma_select_step(pairs, fs, false, i as int);
            }
            let path = self.paths[i].clone();
            match c {
                PathCheck::Found => {
                    proof { lemma_views_push(ok_links@, path); }
                    ok_links.push(path);
                },
                PathCheck::Missing(suggestions) => {
                    let b = BrokenLink { path, suggestions };
                    assert(b@ == pairs[i as int]);
                    assert(broken_views(broken_links@.push(b)) =~= broken_views(broken_links@).push(b@));
                    broken_links.push(b);
                },
            }
            i = i + 1;
        }
        assert(ps.take(i as int) =~= ps);
        assert(fs.take(i as int) =~= fs);
        assert(pairs.take(i as int) =~= pairs);
        FileLinksResult { broken_links, ok_links }
    }
}

/// Every local link lands in exactly one of the two lists: their lengths add up
/// to the number of links.
pub proof fn lemma_file_partition_complete(
    paths: Seq<Seq<char>>,
    checks: Seq<Option<Seq<Seq<char>>>>,
)
    requires
        paths.len() == checks.len(),
    ensures
        ok_paths(paths, checks).len() + broken_paths(paths, checks).len() == paths.len(),
{
    let fs = found_flags(checks);
    crate::selection::lemma_select_partition(paths, fs);
    lemma_select_len(paths, with_suggestions(paths, checks), fs, false);
}

/// A link whose file was found is ok; one whose file is missing is broken,
/// with the suggestions found for it.
pub proof fn lemma_file_classification(
    paths: Seq<Seq<char>>,
    checks: Seq<Option<Seq<Seq<char>>>>,
    i: int,
)
    requires
        paths.len() == checks.len(),
        0 <= i < paths.len(),
    ensures
        checks[i] is None ==> ok_paths(paths, checks).contains(paths[i]),
        checks[i] is Some ==> broken_paths(paths, checks).contains((paths[i], checks[i]->0)),
{
    let fs = found_flags(checks);
    let pairs = with_suggestions(paths, checks);
    lemma_select_contains(paths, fs, true, paths[i]);
    lemma_select_contains(pairs, fs, false, (paths[i], checks[i].unwrap_or(Seq::empty())));
    assert(fs[i] == (checks[i] is None));
    assert(pairs[i] == (paths[i], checks[i].unwrap_or(Seq::empty())));
}

} // verus!
