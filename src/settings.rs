//! The list of recently opened workspaces, most recent first, bounded in
//! length. Times are milliseconds since the Unix epoch, UTC.

use vstd::prelude::*;
use vstd::seq_lib::{group_to_multiset_ensures, to_multiset_insert};

verus! {

broadcast use group_to_multiset_ensures, to_multiset_insert;

/// How many recent workspaces are kept unless configured otherwise.
pub const DEFAULT_MAX_RECENT_WORKSPACES: usize = 10;

/// Relies on chrono::Utc::now and DateTime::timestamp_millis: the current
/// time in milliseconds since the epoch. Nothing is claimed of its value.
#[verifier::external_body]
fn now_millis() -> (t: i64) {
    chrono::Utc::now().timestamp_millis()
}

/// A workspace that was opened, and when it was last opened.
#[derive(Debug, Clone, PartialEq, Eq)]
pub struct WorkspaceEntry {
    /// Path of the workspace directory.
    pub path: String,
    /// Display name, usually the folder name.
    pub name: String,
    /// When the workspace was last opened, in milliseconds since the epoch.
    pub last_opened: i64,
}

impl WorkspaceEntry {
    /// An entry opened at time `at`.
    pub fn new_at(path: String, name: String, at: i64) -> (e: Self)
        ensures
            e == (WorkspaceEntry { path, name, last_opened: at }),
    {
        WorkspaceEntry { path, name, last_opened: at }
    }

    /// An entry opened now.
    pub fn new(path: String, name: String) -> (e: Self)
        ensures
            e.path == path,
            e.name == name,
    {
        Self::new_at(path, name, now_millis())
    }

    /// Marks the entry as opened now.
    pub fn touch(&mut self)
        ensures
            final(self).path == old(self).path,
            final(self).name == old(self).name,
    {
        self.last_opened = now_millis();
    }
}

/// Application settings: the recent workspaces and how many to keep.
#[derive(Debug, Clone, PartialEq, Eq)]
pub struct Settings {
    pub recent_workspaces: Vec<WorkspaceEntry>,
    pub max_recent_workspaces: usize,
}

impl Default for Settings {
    /// No recent workspaces; keep the default number.
    fn default() -> (s: Self)
        ensures
            s.recent_workspaces@.len() == 0,
            s.max_recent_workspaces == DEFAULT_MAX_RECENT_WORKSPACES,
    {
        Settings { recent_workspaces: Vec::new(), max_recent_workspaces: DEFAULT_MAX_RECENT_WORKSPACES }
    }
}

/// The position of the first entry of `s` at path `p`, or the length of `s`.
pub open spec fn path_pos(s: Seq<WorkspaceEntry>, p: Seq<char>) -> nat
    decreases s.len(),
{
    if s.len() == 0 {
        0
    } else if s[0].path@ == p {
        0
    } else {
        1 + path_pos(s.drop_first(), p)
    }
}

/// Whether the entries are ordered from the most recently opened.
pub open spec fn sorted_by_recency(s: Seq<WorkspaceEntry>) -> bool {
    forall|i: int, j: int| 0 <= i < j < s.len() ==> (#[trigger] s[i]).last_opened >= (#[trigger] s[j]).last_opened
}

/// `after` holds the entries of `before`, ordered from the most recently
/// opened, cut to `max` entries.
pub open spec fn recency_ordered_prefix(before: Seq<WorkspaceEntry>, after: Seq<WorkspaceEntry>, max: usize) -> bool {
    exists|sorted: Seq<WorkspaceEntry>|
        #![trigger sorted.to_multiset()]
        sorted.to_multiset() == before.to_multiset() && sorted_by_recency(sorted) && after == (
        if sorted.len() > max {
            sorted.subrange(0, max as int)
        } else {
            sorted
        })
}

/// The entries after opening the workspace at `path` (named `name`) at time
/// `now`: the first entry at that path is stamped `now`, or a new entry is
/// added.
pub open spec fn with_opened(s: Seq<WorkspaceEntry>, path: String, name: String, now: i64) -> Seq<WorkspaceEntry> {
    let k = path_pos(s, path@);
    if k < s.len() {
        stamped(s, k as int, now)
    } else {
        s.push(WorkspaceEntry { path, name, last_opened: now })
    }
}

proof fn lemma_path_pos(s: Seq<WorkspaceEntry>, p: Seq<char>, i: int)
    requires
        0 <= i <= s.len(),
        forall|j: int| 0 <= j < i ==> (#[trigger] s[j]).path@ != p,
    ensures
        path_pos(s, p) >= i,
        path_pos(s, p) <= s.len(),
        i < s.len() && s[i].path@ == p ==> path_pos(s, p) == i,
    decreases s.len(),
{
    if s.len() > 0 {
        if i > 0 {
            assert forall|j: int| 0 <= j < i - 1 implies (#[trigger] s.drop_first()[j]).path@ != p by {
                assert(s.drop_first()[j] == s[j + 1]);
            }
            lemma_path_pos(s.drop_first(), p, i - 1);
        } else {
            lemma_path_pos(s.drop_first(), p, 0);
        }
    }
}

/// `s` with entry `k` stamped as opened at `at`.
pub open spec fn stamped(s: Seq<WorkspaceEntry>, k: int, at: i64) -> Seq<WorkspaceEntry> {
    s.update(k, WorkspaceEntry { last_opened: at, ..s[k] })
}

fn stamp(v: &mut Vec<WorkspaceEntry>, i: usize, at: i64)
    requires
        i < old(v)@.len(),
    ensures
        final(v)@ == stamped(old(v)@, i as int, at),
{
    let mut e = v.remove(i);
    e.last_opened = at;
    v.insert(i, e);
    proof {
        assert(final(v)@ =~= stamped(old(v)@, i as int, at));
    }
}

/// Orders `v` from the most recently opened, keeping the order of entries
/// opened at the same time.
fn sort_by_recency(v: &mut Vec<WorkspaceEntry>)
    ensures
        final(v)@.to_multiset() == old(v)@.to_multiset(),
        sorted_by_recency(final(v)@),
{
    let n = v.len();
    if n == 0 {
        return ;
    }
    let mut i: usize = 1;
    while i < n
        invariant
            1 <= i <= n,
            n == v@.len(),
            v@.to_multiset() == old(v)@.to_multiset(),
            sorted_by_recency(v@.subrange(0, i as int)),
        decreases n - i,
    {
        let ghost before = v@;
        let x = v.remove(i);
        let mut j: usize = 0;
        while j < i && v[j].last_opened >= x.last_opened
            invariant
                0 <= j <= i,
                i < n,
                v@.len() == n - 1,
                v@ == before.remove(i as int),
                forall|k: int| 0 <= k < j ==> (#[trigger] v@[k]).last_opened >= x.last_opened,
            decreases i - j,
        {
            j = j + 1;
        }
        let ghost removed = v@;
        v.insert(j, x);
        proof {
            assert(removed.to_multiset() == before.to_multiset().remove(before[i as int]));
            assert(v@.to_multiset() == removed.to_multiset().insert(x));
            assert(before.to_multiset().contains(x));
            assert(v@.to_multiset() =~= before.to_multiset());
            let sorted_prefix = before.subrange(0, i as int);
            assert forall|a: int, b: int| 0 <= a < b < i + 1 implies (#[trigger] v@.subrange(0, i as int + 1)[a]).last_opened
                >= (#[trigger] v@.subrange(0, i as int + 1)[b]).last_opened by {
                let w = v@.subrange(0, i as int + 1);
                assert(forall|k: int| 0 <= k < i ==> removed[k] == sorted_prefix[k]);
                if b < j {
                    assert(w[a] == sorted_prefix[a] && w[b] == sorted_prefix[b]);
                } else if b == j {
                    assert(w[a] == removed[a]);
                } else if a < j {
                    assert(w[a] == removed[a]);
                    assert(w[b] == removed[b - 1]);
                    if j < i {
                        assert(removed[j as int].last_opened < x.last_opened);
                        assert(sorted_prefix[j as int].last_opened >= sorted_prefix[b - 1].last_opened || j == b - 1);
                    }
                } else if a == j {
                    assert(w[b] == removed[b - 1]);
                    assert(removed[j as int].last_opened < x.last_opened);
                    assert(sorted_prefix[j as int].last_opened >= sorted_prefix[b - 1].last_opened || j == b - 1);
                } else {
                    assert(w[a] == sorted_prefix[a - 1] && w[b] == sorted_prefix[b - 1]);
                }
            }
        }
        i = i + 1;
    }
    proof {
        assert(v@.subrange(0, n as int) =~= v@);
    }
}

impl Settings {
    /// Settings with their default values.
    pub fn new() -> (s: Self)
        ensures
            s.recent_workspaces@.len() == 0,
            s.max_recent_workspaces == DEFAULT_MAX_RECENT_WORKSPACES,
    {
        Self::default()
    }

    /// Records that the workspace at `path` (named `name`) was opened at
    /// time `now`: an entry at that path is stamped `now`, else a new entry
    /// is added; the list is then ordered from the most recently opened and
    /// cut to the configured length.
    pub fn add_workspace_at(&mut self, path: String, name: String, now: i64)
        ensures
            final(self).max_recent_workspaces == old(self).max_recent_workspaces,
            recency_ordered_prefix(
                with_opened(old(self).recent_workspaces@, path, name, now),
                final(self).recent_workspaces@,
                old(self).max_recent_workspaces,
            ),
    {
        let ghost s0 = self.recent_workspaces@;
        let n = self.recent_workspaces.len();
        let mut i: usize = 0;
        while i < n && self.recent_workspaces[i].path != path
            invariant
                0 <= i <= n,
                n == self.recent_workspaces@.len(),
                self.recent_workspaces@ == s0,
                forall|j: int| 0 <= j < i ==> (#[trigger] s0[j]).path@ != path@,
            decreases n - i,
        {
            i = i + 1;
        }
        proof {
            lemma_path_pos(s0, path@, i as int);
        }
        if i < n {
            stamp(&mut self.recent_workspaces, i, now);
        } else {
            self.recent_workspaces.push(WorkspaceEntry::new_at(path, name, now));
        }
        let ghost opened = self.recent_workspaces@;
        sort_by_recency(&mut self.recent_workspaces);
        let ghost sorted = self.recent_workspaces@;
        let max = self.max_recent_workspaces;
        if self.recent_workspaces.len() > max {
            self.recent_workspaces.truncate(max);
        }
        proof {
            assert(opened == with_opened(s0, path, name, now));
            assert(sorted.to_multiset() == opened.to_multiset());
        }
    }

    /// Records that the workspace at `path` (named `name`) was opened now.
    pub fn add_workspace(&mut self, path: String, name: String)
        ensures
            final(self).max_recent_workspaces == old(self).max_recent_workspaces,
            exists|now: i64|
                recency_ordered_prefix(
                    #[trigger] with_opened(old(self).recent_workspaces@, path, name, now),
                    final(self).recent_workspaces@,
                    old(self).max_recent_workspaces,
                ),
    {
        let now = now_millis();
        self.add_workspace_at(path, name, now);
    }

    /// Drops every entry at `path`, keeping the others in order.
    pub fn remove_workspace(&mut self, path: &String)
        ensures
            final(self).max_recent_workspaces == old(self).max_recent_workspaces,
            final(self).recent_workspaces@ == old(self).recent_workspaces@.filter(
                |w: WorkspaceEntry| w.path@ != path@,
            ),
    {
        let ghost s0 = self.recent_workspaces@;
        let mut rest: Vec<WorkspaceEntry> = Vec::new();
        std::mem::swap(&mut rest, &mut self.recent_workspaces);
        let n = rest.len();
        let mut k: usize = 0;
        proof {
            reveal_with_fuel(Seq::filter, 1);
            assert(s0.subrange(0, 0) =~= Seq::<WorkspaceEntry>::empty());
        }
        while k < n
            invariant
                0 <= k <= n,
                n == s0.len(),
                rest@ == s0.subrange(k as int, n as int),
                self.recent_workspaces@ == s0.subrange(0, k as int).filter(
                    |w: WorkspaceEntry| w.path@ != path@,
                ),
                self.max_recent_workspaces == old(self).max_recent_workspaces,
            decreases n - k,
        {
            let w = rest.remove(0);
            proof {
                assert(s0.subrange(0, k as int + 1).drop_last() =~= s0.subrange(0, k as int));
                assert(s0.subrange(0, k as int + 1).last() == w);
                reveal_with_fuel(Seq::filter, 1);
                assert(rest@ =~= s0.subrange(k as int + 1, n as int));
            }
            if w.path != *path {
                self.recent_workspaces.push(w);
            }
            k = k + 1;
        }
        proof {
            assert(s0.subrange(0, n as int) =~= s0);
        }
    }

    /// Stamps the first entry at `path` with time `now` and orders the list
    /// again; changes nothing when no entry is at `path`.
    pub fn update_last_opened_at(&mut self, path: &String, now: i64)
        ensures
            final(self).max_recent_workspaces == old(self).max_recent_workspaces,
            path_pos(old(self).recent_workspaces@, path@) == old(self).recent_workspaces@.len()
                ==> final(self).recent_workspaces@ == old(self).recent_workspaces@,
            path_pos(old(self).recent_workspaces@, path@) < old(self).recent_workspaces@.len()
                ==> final(self).recent_workspaces@.to_multiset() == stamped(
                old(self).recent_workspaces@,
                path_pos(old(self).recent_workspaces@, path@) as int,
                now,
            ).to_multiset() && sorted_by_recency(final(self).recent_workspaces@),
    {
        let ghost s0 = self.recent_workspaces@;
        let n = self.recent_workspaces.len();
        let mut i: usize = 0;
        while i < n && self.recent_workspaces[i].path != *path
            invariant
                0 <= i <= n,
                n == self.recent_workspaces@.len(),
                self.recent_workspaces@ == s0,
                forall|j: int| 0 <= j < i ==> (#[trigger] s0[j]).path@ != path@,
            decreases n - i,
        {
            i = i + 1;
        }
        proof {
            lemma_path_pos(s0, path@, i as int);
        }
        if i < n {
            stamp(&mut self.recent_workspaces, i, now);
            sort_by_recency(&mut self.recent_workspaces);
        }
    }

    /// Stamps the first entry at `path` as opened now and orders the list
    /// again; changes nothing when no entry is at `path`.
    pub fn update_last_opened(&mut self, path: &String)
        ensures
            final(self).max_recent_workspaces == old(self).max_recent_workspaces,
            path_pos(old(self).recent_workspaces@, path@) == old(self).recent_workspaces@.len()
                ==> final(self).recent_workspaces@ == old(self).recent_workspaces@,
            path_pos(old(self).recent_workspaces@, path@) < old(self).recent_workspaces@.len()
                ==> exists|now: i64|
                final(self).recent_workspaces@.to_multiset() == (#[trigger] stamped(
                    old(self).recent_workspaces@,
                    path_pos(old(self).recent_workspaces@, path@) as int,
                    now,
                )).to_multiset() && sorted_by_recency(final(self).recent_workspaces@),
    {
        let now = now_millis();
        self.update_last_opened_at(path, now);
    }
}

} // verus!
