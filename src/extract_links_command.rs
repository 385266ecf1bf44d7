use vstd::prelude::*;
use crate::selection::{lemma_select_step, lemma_views_push, select, views};

verus! {

/// A Markdown document whose links are to be gathered.
pub struct ExtractLinksCommand {
    path: String,
}

/// The targets of a document's links, split into local paths and URLs.
#[derive(Debug)]
pub struct ExtractedLinks {
    pub local_files: Vec<String>,
    pub external_links: Vec<String>,
}

impl View for ExtractLinksCommand {
    type V = Seq<char>;

    closed spec fn view(&self) -> Seq<char> {
        self.path@
    }
}

impl ExtractLinksCommand {
    pub fn new(path: String) -> (r: Self)
        ensures
            r@ == path@,
    {
        ExtractLinksCommand { path }
    }

    /// Where the document lies.
    pub fn path(&self) -> (r: &String)
        ensures
            r@ == self@,
    {
        &self.path
    }
}

/// Whether a string parses as an absolute URL, as the url crate decides.
pub uninterp spec fn url_parses(s: Seq<char>) -> bool;

/// Relies on url::Url::parse: whether the input is accepted as an absolute URL.
#[verifier::external_body]
fn parses_as_url(s: &str) -> (r: bool)
    ensures
        r == url_parses(s@),
{
    url::Url::parse(s).is_ok()
}

/// The first position from `i` on that holds a square bracket, or the end.
pub open spec fn label_end(s: Seq<char>, i: int) -> int
    decreases s.len() - i,
{
    if 0 <= i < s.len() {
        if s[i] == '[' || s[i] == ']' {
            i
        } else {
            label_end(s, i + 1)
        }
    } else {
        s.len() as int
    }
}

/// The first position from `i` on that holds a closing parenthesis or a line
/// break, or the end.
pub open spec fn target_end(s: Seq<char>, i: int) -> int
    decreases s.len() - i,
{
    if 0 <= i < s.len() {
        if s[i] == ')' || s[i] == '\n' {
            i
        } else {
            target_end(s, i + 1)
        }
    } else {
        s.len() as int
    }
}

/// The link that starts at `i`, as the bounds of its target: a `[`, a label
/// free of square brackets, `](`, then the target up to the first `)`, which
/// must come before any line break.
pub open spec fn link_at(s: Seq<char>, i: int) -> Option<(int, int)> {
    if 0 <= i < s.len() && s[i] == '[' {
        let j = label_end(s, i + 1);
        if j + 1 < s.len() && s[j] == ']' && s[j + 1] == '(' {
            let k = target_end(s, j + 2);
            if k < s.len() && s[k] == ')' {
                Some((j + 2, k))
            } else {
                None
            }
        } else {
            None
        }
    } else {
        None
    }
}

/// The targets of the links in `s` from position `i` on: the leftmost link is
/// taken first, and the search goes on after its closing parenthesis.
pub open spec fn link_targets_from(s: Seq<char>, i: int) -> Seq<Seq<char>>
    decreases s.len() - i,
    via link_targets_from_decreases
{
    if 0 <= i < s.len() {
        match link_at(s, i) {
            Some((a, b)) => seq![s.subrange(a, b)] + link_targets_from(s, b + 1),
            None => link_targets_from(s, i + 1),
        }
    } else {
        Seq::empty()
    }
}

proof fn lemma_label_end_bounds(s: Seq<char>, i: int)
    requires
        0 <= i <= s.len(),
    ensures
        i <= label_end(s, i) <= s.len(),
    decreases s.len() - i,
{
    if i < s.len() {
        lemma_label_end_bounds(s, i + 1);
    }
}

proof fn lemma_target_end_bounds(s: Seq<char>, i: int)
    requires
        0 <= i <= s.len(),
    ensures
        i <= target_end(s, i) <= s.len(),
    decreases s.len() - i,
{
    if i < s.len() {
        lemma_target_end_bounds(s, i + 1);
    }
}

/// A link's target lies after its start and inside the text.
proof fn lemma_link_at_bounds(s: Seq<char>, i: int)
    requires
        0 <= i < s.len(),
        link_at(s, i) is Some,
    ensures
        match link_at(s, i) {
            Some((a, b)) => i < a <= b < s.len(),
            None => false,
        },
{
    lemma_label_end_bounds(s, i + 1);
    let j = label_end(s, i + 1);
    lemma_target_end_bounds(s, j + 2);
}

#[via_fn]
proof fn link_targets_from_decreases(s: Seq<char>, i: int) {
    if 0 <= i < s.len() && link_at(s, i) is Some {
        lemma_link_at_bounds(s, i);
    }
}

/// The characters of a string.
fn chars_of(text: &str) -> (r: Vec<char>)
    ensures
        r@ == text@,
{
    let mut out: Vec<char> = Vec::new();
    for c in it: text.chars()
        invariant
            out@ == it.seq().take(it.index() as int),
    {
        out.push(c);
        assert(out@ =~= it.seq().take(it.index() + 1));
    }
    assert(out@ =~= text@);
    out
}

fn find_label_end(cs: &Vec<char>, i: usize) -> (j: usize)
    requires
        i <= cs.len(),
    ensures
        j == label_end(cs@, i as int),
{
    let n = cs.len();
    let mut j = i;
    while j < n
        invariant
            i <= j <= n,
            n == cs.len(),
            label_end(cs@, j as int) == label_end(cs@, i as int),
        decreases n - j,
    {
        if cs[j] == '[' || cs[j] == ']' {
            return j;
        }
        j = j + 1;
    }
    j
}

fn find_target_end(cs: &Vec<char>, i: usize) -> (j: usize)
    requires
        i <= cs.len(),
    ensures
        j == target_end(cs@, i as int),
{
    let n = cs.len();
    let mut j = i;
    while j < n
        invariant
            i <= j <= n,
            n == cs.len(),
            target_end(cs@, j as int) == target_end(cs@, i as int),
        decreases n - j,
    {
        if cs[j] == ')' || cs[j] == '\n' {
            return j;
        }
        j = j + 1;
    }
    j
}

fn find_link_at(cs: &Vec<char>, i: usize) -> (r: Option<(usize, usize)>)
    requires
        i < cs.len(),
    ensures
        match r {
            Some((a, b)) => link_at(cs@, i as int) == Some((a as int, b as int)),
            None => link_at(cs@, i as int) is None,
        },
{
    if cs[i] != '[' {
        return None;
    }
    let j = find_label_end(cs, i + 1);
    proof {
        lemma_label_end_bounds(cs@, i + 1);
    }
    if j < cs.len() && j + 1 < cs.len() && cs[j] == ']' && cs[j + 1] == '(' {
        let k = find_target_end(cs, j + 2);
        if k < cs.len() && cs[k] == ')' {
            Some((j + 2, k))
        } else {
            None
        }
    } else {
        None
    }
}

/// The targets of the Markdown links in `content`, in order of appearance.
pub fn link_targets(content: &str) -> (r: Vec<String>)
    ensures
        views(r@) == link_targets_from(content@, 0),
{
    let cs = chars_of(content);
    let ghost s = content@;
    let n = cs.len();
    let mut out: Vec<String> = Vec::new();
    let mut i: usize = 0;
    while i < n
        invariant
            i <= n,
            n == cs.len(),
            cs@ == s,
            s == content@,
            views(out@) + link_targets_from(s, i as int) == link_targets_from(s, 0),
        decreases n - i,
    {
        match find_link_at(&cs, i) {
            Some((a, b)) => {
                proof {
                    lemma_link_at_bounds(s, i as int);
                }
                let t = content.substring_char(a, b).to_owned();
                proof {
                    lemma_views_push(out@, t);
                    assert(views(out@.push(t)) + link_targets_from(s, b + 1) =~= views(out@) + (
                    seq![s.subrange(a as int, b as int)] + link_targets_from(s, b + 1)));
                }
                out.push(t);
                i = b + 1;
            },
            None => {
                i = i + 1;
            },
        }
    }
    assert(views(out@) + link_targets_from(s, i as int) =~= views(out@));
    out
}

/// Whether each target parses as a URL.
pub open spec fn url_flags(targets: Seq<Seq<char>>) -> Seq<bool> {
    targets.map_values(|t: Seq<char>| url_parses(t))
}

/// Splits link targets by the flag given for each: flagged ones are external
/// links, the others local files. Both keep the order of `targets`.
pub fn classify_links(targets: Vec<String>, is_url: &Vec<bool>) -> (r: ExtractedLinks)
    requires
        targets.len() == is_url.len(),
    ensures
        views(r.external_links@) == select(views(targets@), is_url@, true),
        views(r.local_files@) == select(views(targets@), is_url@, false),
{
    let ghost ts = views(targets@);
    let mut local_files: Vec<String> = Vec::new();
    let mut external_links: Vec<String> = Vec::new();
    let mut i: usize = 0;
    for t in it: targets.into_iter()
        invariant
            i == it.index(),
            it.seq() == targets@,
            ts == views(targets@),
            targets.len() == is_url.len(),
            views(external_links@) == select(ts.take(i as int), is_url@.take(i as int), true),
            views(local_files@) == select(ts.take(i as int), is_url@.take(i as int), false),
    {
        proof {
            lemma_select_step(ts, is_url@, true, i as int);
            lemma_select_step(ts, is_url@, false, i as int);
            lemma_views_push(external_links@, t);
            lemma_views_push(local_files@, t);
        }
        if is_url[i] {
            external_links.push(t);
        } else {
            local_files.push(t);
        }
        i = i + 1;
    }
    assert(ts.take(i as int) =~= ts);
    assert(is_url@.take(i as int) =~= is_url@);
    ExtractedLinks { local_files, external_links }
}

/// Gathers the link targets of a Markdown text and splits them: those that
/// parse as absolute URLs are external links, the others local files.
pub fn extract_links(content: &str) -> (r: ExtractedLinks)
    ensures
        views(r.external_links@) == select(
            link_targets_from(content@, 0),
            url_flags(link_targets_from(content@, 0)),
            true,
        ),
        views(r.local_files@) == select(
            link_targets_from(content@, 0),
            url_flags(link_targets_from(content@, 0)),
            false,
        ),
{
    let targets = link_targets(content);
    let ghost ts = views(targets@);
    let mut flags: Vec<bool> = Vec::new();
    let n = targets.len();
    for i in 0..n
        invariant
            n == targets.len(),
            ts == views(targets@),
            flags@ == url_flags(ts).take(i as int),
    {
        let f = parses_as_url(targets[i].as_str());
        assert(ts[i as int] == targets@[i as int]@);
        flags.push(f);
        assert(flags@ =~= url_flags(ts).take(i + 1));
    }
    assert(flags@ =~= url_flags(ts));
    classify_links(targets, &flags)
}

} // verus!
