use vstd::prelude::*;
use vstd::utf8::encode_utf8;
use crate::selection::views;

verus! {

/// Largest number of edits a suggestion may differ by, and the number of bytes
/// of candidate length that earn one more allowed edit.
pub const MAX_THRESHOLD: usize = 5;

/// The Levenshtein distance between two character sequences, as computed by strsim.
pub uninterp spec fn levenshtein_of(a: Seq<char>, b: Seq<char>) -> nat;

/// Relies on strsim::levenshtein: the number of single-character insertions,
/// deletions and substitutions that turn `a` into `b`, counted over chars.
#[verifier::external_body]
fn edit_distance(a: &str, b: &str) -> (r: usize)
    ensures
        r as nat == levenshtein_of(a@, b@),
{
    strsim::levenshtein(a, b)
}

/// The edit budget of a candidate: one edit per five bytes of its UTF-8
/// encoding, but never more than five.
pub open spec fn threshold(candidate: Seq<char>) -> int {
    let budget = encode_utf8(candidate).len() as int / (MAX_THRESHOLD as int);
    if budget < MAX_THRESHOLD as int { budget } else { MAX_THRESHOLD as int }
}

/// A candidate is suggested for a target when their edit distance is within
/// the candidate's budget.
pub open spec fn is_similar(target: Seq<char>, candidate: Seq<char>) -> bool {
    levenshtein_of(target, candidate) <= threshold(candidate)
}

/// Whether an edit distance is within the budget of `candidate`.
pub fn within_threshold(distance: usize, candidate: &str) -> (r: bool)
    ensures
        r == (distance <= threshold(candidate@)),
{
    let bytes = candidate.as_bytes();
    let budget = bytes.len() / MAX_THRESHOLD;
    let budget = if budget < MAX_THRESHOLD { budget } else { MAX_THRESHOLD };
    distance <= budget
}

/// Whether `candidate` is close enough to `target` to be suggested for it.
pub fn is_similar_path(target: &str, candidate: &str) -> (r: bool)
    ensures
        r == is_similar(target@, candidate@),
{
    let d = edit_distance(target, candidate);
    within_threshold(d, candidate)
}

/// The decisions of a walk over a directory tree that gathers the files similar
/// to a target path. The caller lists directories and reports what it finds;
/// the search says which directory to list next. Directories are entered once
/// per real (canonical) path, so symbolic links cannot make the walk cycle.
pub struct SimilaritySearch {
    target: String,
    pending: Vec<String>,
    visited: Vec<String>,
    matches: Vec<String>,
}

impl SimilaritySearch {
    /// The path suggestions are sought for.
    pub closed spec fn spec_target(&self) -> Seq<char> {
        self.target@
    }

    /// Directories waiting to be listed; the last one is listed next.
    pub closed spec fn spec_pending(&self) -> Seq<Seq<char>> {
        views(self.pending@)
    }

    /// Real paths of the directories entered so far.
    pub closed spec fn spec_visited(&self) -> Seq<Seq<char>> {
        views(self.visited@)
    }

    /// Files found so far that are similar to the target, in the order reported.
    pub closed spec fn spec_matches(&self) -> Seq<Seq<char>> {
        views(self.matches@)
    }

    /// Only similar files are ever gathered.
    pub open spec fn well_formed(&self) -> bool {
        forall|i: int|
            0 <= i < self.spec_matches().len() ==> is_similar(
                self.spec_target(),
                #[trigger] self.spec_matches()[i],
            )
    }

    /// Starts a search for `target` under the directory `root`, whose real path is `root_real`.
    pub fn new(target: String, root: String, root_real: String) -> (r: Self)
        ensures
            r.well_formed(),
            r.spec_target() == target@,
            r.spec_pending() == seq![root@],
            r.spec_visited() == seq![root_real@],
            r.spec_matches() == Seq::<Seq<char>>::empty(),
    {
        let ghost (rv, rrv) = (root@, root_real@);
        let r = SimilaritySearch {
            target,
            pending: vec![root],
            visited: vec![root_real],
            matches: Vec::new(),
        };
        assert(r.spec_pending() =~= seq![rv]);
        assert(r.spec_visited() =~= seq![rrv]);
        assert(r.spec_matches() =~= Seq::<Seq<char>>::empty());
        r
    }

    /// Takes the next directory to list, or `None` when the walk is over.
    pub fn next_dir(&mut self) -> (r: Option<String>)
        requires
            old(self).well_formed(),
        ensures
            final(self).well_formed(),
            final(self).spec_target() == old(self).spec_target(),
            final(self).spec_visited() == old(self).spec_visited(),
            final(self).spec_matches() == old(self).spec_matches(),
            old(self).spec_pending().len() == 0 ==> r is None && final(self).spec_pending()
                == old(self).spec_pending(),
            old(self).spec_pending().len() > 0 ==> r is Some && r->0@ == old(
                self,
            ).spec_pending().last() && final(self).spec_pending() == old(
                self,
            ).spec_pending().drop_last(),
    {
        let ghost before = self.pending@;
        let r = self.pending.pop();
        proof {
            if before.len() > 0 {
                assert(views(self.pending@) =~= views(before).drop_last());
            }
            assert(self.spec_matches() == old(self).spec_matches());
        }
        r
    }

    /// Reports a subdirectory found in a listing, with its real path. It is
    /// queued unless a directory with the same real path was entered before.
    pub fn enter_dir(&mut self, path: String, real_path: String)
        requires
            old(self).well_formed(),
        ensures
            final(self).well_formed(),
            final(self).spec_target() == old(self).spec_target(),
            final(self).spec_matches() == old(self).spec_matches(),
            old(self).spec_visited().contains(real_path@) ==> final(self).spec_pending() == old(
                self,
            ).spec_pending() && final(self).spec_visited() == old(self).spec_visited(),
            !old(self).spec_visited().contains(real_path@) ==> final(self).spec_pending() == old(
                self,
            ).spec_pending().push(path@) && final(self).spec_visited() == old(
                self,
            ).spec_visited().push(real_path@),
    {
        let mut i: usize = 0;
        let n = self.visited.len();
        while i < n
            invariant
                n == self.visited.len(),
                i <= n,
                forall|k: int| 0 <= k < i ==> views(self.visited@)[k] != real_path@,
                *self == *old(self),
                old(self).well_formed(),
            decreases n - i,
        {
            if self.visited[i] == real_path {
                assert(views(self.visited@)[i as int] == real_path@);
                return;
            }
            assert(views(self.visited@)[i as int] == self.visited@[i as int]@);
            i = i + 1;
        }
        proof {
            crate::selection::lemma_views_push(self.pending@, path);
            crate::selection::lemma_views_push(self.visited@, real_path);
        }
        self.pending.push(path);
        self.visited.push(real_path);
        assert(self.spec_matches() == old(self).spec_matches());
    }

    /// Reports a file found in a listing. It is gathered exactly when it is
    /// similar to the target.
    pub fn visit_file(&mut self, path: String)
        requires
            old(self).well_formed(),
        ensures
            final(self).well_formed(),
            final(self).spec_target() == old(self).spec_target(),
            final(self).spec_pending() == old(self).spec_pending(),
            final(self).spec_visited() == old(self).spec_visited(),
            is_similar(old(self).spec_target(), path@) ==> final(self).spec_matches() == old(
                self,
            ).spec_matches().push(path@),
            !is_similar(old(self).spec_target(), path@) ==> final(self).spec_matches() == old(
                self,
            ).spec_matches(),
    {
        if is_similar_path(self.target.as_str(), path.as_str()) {
            let ghost m = self.spec_matches();
            proof {
                crate::selection::lemma_views_push(self.matches@, path);
            }
            self.matches.push(path);
            assert forall|i: int| 0 <= i < self.spec_matches().len() implies is_similar(
                self.spec_target(),
                #[trigger] self.spec_matches()[i],
            ) by {
                if i < m.len() {
                    assert(self.spec_matches()[i] == m[i]);
                }
            }
        }
    }

    /// Ends the search, handing out the similar files found, in the order reported.
    pub fn into_matches(self) -> (r: Vec<String>)
        requires
            self.well_formed(),
        ensures
            views(r@) == self.spec_matches(),
            forall|i: int| 0 <= i < r@.len() ==> is_similar(self.spec_target(), #[trigger] r@[i]@),
    {
        let r = self.matches;
        assert forall|i: int| 0 <= i < r@.len() implies is_similar(self.spec_target(), #[trigger] r@[i]@) by {
            assert(self.spec_matches()[i] == r@[i]@);
        }
        r
    }
}

} // verus!
