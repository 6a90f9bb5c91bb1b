//! Snapshot-time fleet data: one record per runner, and the full fleet
//! snapshot produced by each poll of the remote fleet API.
//!
//! The HTTP client that actually fetches these lives outside the library; it
//! hands over plain values that these types hold.

use vstd::prelude::*;
use vstd::string::{StrSliceExecFns, StringExecFns};

verus! {

/// Mathematical model of a [`Runner`]: the same facts over `Seq<char>`.
pub struct RunnerView {
    pub id: u64,
    pub name: Seq<char>,
    pub busy: bool,
    pub os: Seq<char>,
    pub status: Seq<char>,
    pub labels: Seq<Seq<char>>,
}

/// One execution agent observed at snapshot time: identifier (unique within a
/// snapshot), display name, busy flag, and descriptive fields. Produced fresh
/// on every poll and never mutated.
#[derive(Debug, Clone, PartialEq)]
pub struct Runner {
    pub id: u64,
    pub name: String,
    pub busy: bool,
    pub os: String,
    pub status: String,
    pub labels: Vec<String>,
}

impl View for Runner {
    type V = RunnerView;

    open spec fn view(&self) -> RunnerView {
        RunnerView {
            id: self.id,
            name: self.name@,
            busy: self.busy,
            os: self.os@,
            status: self.status@,
            labels: self.labels.deep_view(),
        }
    }
}

impl DeepView for Runner {
    type V = RunnerView;

    open spec fn deep_view(&self) -> RunnerView {
        self.view()
    }
}

/// The complete observed fleet state at one poll instant: an ordered sequence
/// of runner records. Immutable once constructed; superseded, not merged, by
/// the next poll's snapshot.
#[derive(Debug, Clone, PartialEq)]
pub struct RunnerList {
    pub runners: Vec<Runner>,
}

impl View for RunnerList {
    type V = Seq<RunnerView>;

    open spec fn view(&self) -> Seq<RunnerView> {
        self.runners.deep_view()
    }
}

/// Runner identifiers are unique within one snapshot.
pub open spec fn distinct_ids(rs: Seq<RunnerView>) -> bool {
    forall|i: int, j: int|
        0 <= i < rs.len() && 0 <= j < rs.len() && i != j ==> rs[i].id != rs[j].id
}

impl RunnerList {
    /// An empty fleet snapshot.
    pub fn new() -> (s: RunnerList)
        ensures
            s@ == Seq::<RunnerView>::empty(),
    {
        let s = RunnerList { runners: Vec::new() };
        proof {
            assert(s@ =~= Seq::<RunnerView>::empty());
        }
        s
    }

    /// Number of runners in the snapshot.
    pub fn len(&self) -> (n: usize)
        ensures
            n == self@.len(),
    {
        self.runners.len()
    }
}

/// The configured target names an `owner/repo` pair rather than an
/// organization: it holds a `/`.
pub open spec fn contains_slash(s: Seq<char>) -> bool {
    exists|i: int| 0 <= i < s.len() && s[i] == '/'
}

/// Whether the configured target string holds a `/`.
pub fn has_slash(target: &str) -> (b: bool)
    ensures
        b == contains_slash(target@),
{
    let n: usize = target.unicode_len();
    for i in 0..n
        invariant
            n == target@.len(),
            forall|j: int| 0 <= j < i ==> target@[j] != '/',
    {
        if target.get_char(i) == '/' {
            proof {
                assert(target@[i as int] == '/');
            }
            return true;
        }
    }
    false
}

/// The first index at or after `from` where `s` holds a `/`, or `s.len()`
/// when none follows.
pub open spec fn next_slash(s: Seq<char>, from: int) -> int
    decreases s.len() - from when 0 <= from
{
    if from >= s.len() {
        s.len() as int
    } else if s[from] == '/' {
        from
    } else {
        next_slash(s, from + 1)
    }
}

/// What the repository scope keeps of a slash-containing target: everything
/// up to its second `/` — the owner and the repository name, any further
/// segments cut off.
pub open spec fn owner_repo(s: Seq<char>) -> Seq<char> {
    s.take(next_slash(s, next_slash(s, 0) + 1))
}

/// `next_slash(s, from)` is the least slash position at or after `from`.
proof fn lemma_next_slash(s: Seq<char>, from: int)
    requires
        0 <= from <= s.len(),
    ensures
        from <= next_slash(s, from) <= s.len(),
        next_slash(s, from) < s.len() ==> s[next_slash(s, from)] == '/',
        forall|j: int| from <= j < next_slash(s, from) ==> s[j] != '/',
    decreases s.len() - from,
{
    if from < s.len() && s[from] != '/' {
        lemma_next_slash(s, from + 1);
    }
}

/// The fleet API base path for a configured target: the repository scope
/// `repos/<owner>/<repo>` when the target holds a `/` (segments past the
/// second `/` are cut off), the organization scope `orgs/<target>`
/// otherwise.
pub fn api_base_path(target: &str) -> (r: String)
    ensures
        contains_slash(target@) ==> r@ == "repos/"@ + owner_repo(target@),
        !contains_slash(target@) ==> r@ == "orgs/"@ + target@,
{
    let ghost s = target@;
    let n: usize = target.unicode_len();

    let mut i: usize = 0;
    while i < n && target.get_char(i) != '/'
        invariant
            n == s.len(),
            s == target@,
            i <= n,
            forall|j: int| 0 <= j < i ==> s[j] != '/',
        decreases n - i,
    {
        i = i + 1;
    }
    proof {
        lemma_next_slash(s, 0);
        assert(i == next_slash(s, 0));
    }

    if i == n {
        proof {
            assert(!contains_slash(s));
        }
        let mut r = "orgs/".to_owned();
        r.append(target);
        r
    } else {
        let mut k: usize = i + 1;
        while k < n && target.get_char(k) != '/'
            invariant
                n == s.len(),
                s == target@,
                i < k <= n,
                forall|j: int| i < j < k ==> s[j] != '/',
            decreases n - k,
        {
            k = k + 1;
        }
        proof {
            lemma_next_slash(s, i + 1);
            assert(k == next_slash(s, i + 1));
            assert(contains_slash(s)) by {
                assert(s[i as int] == '/');
            }
        }
        let head = target.substring_char(0, k);
        let mut r = "repos/".to_owned();
        r.append(head);
        proof {
            assert(head@ =~= owner_repo(s));
        }
        r
    }
}

/// `s` lists its runners in ascending id order.
pub open spec fn runners_sorted(s: Seq<Runner>) -> bool {
    forall|i: int, j: int| 0 <= i < j < s.len() ==> s[i].id <= s[j].id
}

/// Order a fleet listing by runner id: the same records, ascending by id.
pub fn sort_runners_by_id(mut input: Vec<Runner>) -> (out: Vec<Runner>)
    ensures
        runners_sorted(out@),
        out@.to_multiset() == input@.to_multiset(),
{
    let ghost orig = input@;
    let mut out: Vec<Runner> = Vec::new();
    proof {
        broadcast use vstd::seq_lib::group_to_multiset_ensures;

        assert(out@.to_multiset().add(input@.to_multiset()) =~= orig.to_multiset());
    }
    while input.len() > 0
        invariant
            out@.to_multiset().add(input@.to_multiset()) == orig.to_multiset(),
            runners_sorted(out@),
            forall|i: int, j: int|
                0 <= i < out@.len() && 0 <= j < input@.len() ==> out@[i].id <= input@[j].id,
        decreases input@.len(),
    {
        let mut m: usize = 0;
        let mut k: usize = 1;
        while k < input.len()
            invariant
                input@.len() > 0,
                m < input@.len(),
                k <= input@.len(),
                forall|j: int| 0 <= j < k ==> input@[m as int].id <= input@[j].id,
            decreases input@.len() - k,
        {
            if input[k].id < input[m].id {
                m = k;
            }
            k = k + 1;
        }
        let ghost pre = input@;
        let r = input.remove(m);
        out.push(r);
        proof {
            broadcast use vstd::seq_lib::group_to_multiset_ensures;

            assert(input@.to_multiset() == pre.to_multiset().remove(r));
            assert(out@.to_multiset().add(input@.to_multiset()) =~= orig.to_multiset());
            assert forall|i: int, j: int|
                0 <= i < out@.len() && 0 <= j < input@.len() implies out@[i].id
                <= input@[j].id by {
                assert(input@[j] == if j < m { pre[j] } else { pre[j + 1] });
            }
        }
    }
    out
}

} // verus!
