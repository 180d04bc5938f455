//! Git worktrees as the browser lists them, and the rules a new branch
//! name must follow.

use vstd::prelude::*;
use vstd::string::*;

verus! {

/// A git worktree.
#[derive(Debug, Clone, PartialEq)]
pub struct Worktree {
    /// Path of the worktree directory.
    pub path: String,
    /// The checked-out branch, or "HEAD" when detached.
    pub branch: String,
    /// Whether HEAD is detached.
    pub is_detached: bool,
    /// Whether the worktree is locked.
    pub is_locked: bool,
}

impl Worktree {
    /// A worktree with these fields.
    pub fn new(path: String, branch: String, is_detached: bool, is_locked: bool) -> (w: Self)
        ensures
            w.path@ == path@,
            w.branch@ == branch@,
            w.is_detached == is_detached,
            w.is_locked == is_locked,
    {
        Worktree { path, branch, is_detached, is_locked }
    }
}

/// Why a branch name was refused.
#[derive(Debug, Clone, Copy, PartialEq, Eq, Structural)]
pub enum BranchNameError {
    Empty,
    Reserved,
    HasSpace,
    EdgeSlash,
    DoubleSlash,
    EdgePeriod,
    DoublePeriod,
    /// The name holds this forbidden character.
    ForbiddenChar(char),
    /// The name holds the sequence "@{".
    AtBrace,
}

/// The text that explains each refusal.
pub open spec fn branch_error_text(e: BranchNameError) -> Seq<char> {
    match e {
        BranchNameError::Empty => "Branch name cannot be empty"@,
        BranchNameError::Reserved => "'HEAD' is a reserved name"@,
        BranchNameError::HasSpace => "Branch name cannot contain spaces"@,
        BranchNameError::EdgeSlash => "Branch name cannot start or end with a slash"@,
        BranchNameError::DoubleSlash => "Branch name cannot contain consecutive slashes"@,
        BranchNameError::EdgePeriod => "Branch name cannot start or end with a period"@,
        BranchNameError::DoublePeriod => "Branch name cannot contain '..'"@,
        BranchNameError::ForbiddenChar(c) => forbidden_char_text(c),
        BranchNameError::AtBrace => "Branch name cannot contain '@{'"@,
    }
}

/// The text that explains the refusal of a forbidden character.
pub open spec fn forbidden_char_text(c: char) -> Seq<char> {
    if c == '~' {
        "Branch name cannot contain '~'"@
    } else if c == '^' {
        "Branch name cannot contain '^'"@
    } else if c == ':' {
        "Branch name cannot contain ':'"@
    } else if c == '?' {
        "Branch name cannot contain '?'"@
    } else if c == '*' {
        "Branch name cannot contain '*'"@
    } else if c == '[' {
        "Branch name cannot contain '['"@
    } else if c == '\\' {
        "Branch name cannot contain '\\'"@
    } else if c == '@' {
        "Branch name cannot contain '@'"@
    } else {
        "Branch name cannot contain a forbidden character"@
    }
}

impl BranchNameError {
    /// The text that explains the refusal.
    pub fn message(&self) -> (r: String)
        ensures
            r@ == branch_error_text(*self),
    {
        match self {
            BranchNameError::Empty => String::from_str("Branch name cannot be empty"),
            BranchNameError::Reserved => String::from_str("'HEAD' is a reserved name"),
            BranchNameError::HasSpace => String::from_str("Branch name cannot contain spaces"),
            BranchNameError::EdgeSlash => String::from_str(
                "Branch name cannot start or end with a slash",
            ),
            BranchNameError::DoubleSlash => String::from_str(
                "Branch name cannot contain consecutive slashes",
            ),
            BranchNameError::EdgePeriod => String::from_str(
                "Branch name cannot start or end with a period",
            ),
            BranchNameError::DoublePeriod => String::from_str("Branch name cannot contain '..'"),
            BranchNameError::ForbiddenChar(c) => {
                let c = *c;
                if c == '~' {
                    String::from_str("Branch name cannot contain '~'")
                } else if c == '^' {
                    String::from_str("Branch name cannot contain '^'")
                } else if c == ':' {
                    String::from_str("Branch name cannot contain ':'")
                } else if c == '?' {
                    String::from_str("Branch name cannot contain '?'")
                } else if c == '*' {
                    String::from_str("Branch name cannot contain '*'")
                } else if c == '[' {
                    String::from_str("Branch name cannot contain '['")
                } else if c == '\\' {
                    String::from_str("Branch name cannot contain '\\'")
                } else if c == '@' {
                    String::from_str("Branch name cannot contain '@'")
                } else {
                    String::from_str("Branch name cannot contain a forbidden character")
                }
            },
            BranchNameError::AtBrace => String::from_str("Branch name cannot contain '@{'"),
        }
    }
}

/// The characters a branch name may not hold, in the order they are
/// checked.
pub open spec fn forbidden_chars() -> Seq<char> {
    seq!['~', '^', ':', '?', '*', '[', '\\', '@']
}

/// Whether `s` holds `c`.
pub open spec fn has_char(s: Seq<char>, c: char) -> bool {
    exists|i: int| 0 <= i < s.len() && s[i] == c
}

/// Whether `s` holds `a` immediately followed by `b`.
pub open spec fn has_pair(s: Seq<char>, a: char, b: char) -> bool {
    exists|i: int| 0 <= i < s.len() - 1 && #[trigger] s[i] == a && s[i + 1] == b
}

/// The first of `chars` that `s` holds, if any.
pub open spec fn first_held(s: Seq<char>, chars: Seq<char>) -> Option<char>
    decreases chars.len(),
{
    if chars.len() == 0 {
        None
    } else if has_char(s, chars[0]) {
        Some(chars[0])
    } else {
        first_held(s, chars.drop_first())
    }
}

/// The verdict on a branch name: the first rule it breaks, in order, or
/// none.
pub open spec fn branch_name_verdict(s: Seq<char>) -> Result<(), BranchNameError> {
    if s.len() == 0 {
        Err(BranchNameError::Empty)
    } else if s == seq!['H', 'E', 'A', 'D'] {
        Err(BranchNameError::Reserved)
    } else if has_char(s, ' ') {
        Err(BranchNameError::HasSpace)
    } else if s[0] == '/' || s.last() == '/' {
        Err(BranchNameError::EdgeSlash)
    } else if has_pair(s, '/', '/') {
        Err(BranchNameError::DoubleSlash)
    } else if s[0] == '.' || s.last() == '.' {
        Err(BranchNameError::EdgePeriod)
    } else if has_pair(s, '.', '.') {
        Err(BranchNameError::DoublePeriod)
    } else if first_held(s, forbidden_chars()) is Some {
        Err(BranchNameError::ForbiddenChar(first_held(s, forbidden_chars())->Some_0))
    } else if has_pair(s, '@', '{') {
        Err(BranchNameError::AtBrace)
    } else {
        Ok(())
    }
}

fn contains_char(s: &str, c: char) -> (r: bool)
    ensures
        r == has_char(s@, c),
{
    let n = s.unicode_len();
    let mut i: usize = 0;
    while i < n
        invariant
            n == s@.len(),
            0 <= i <= n,
            forall|j: int| 0 <= j < i ==> s@[j] != c,
        decreases n - i,
    {
        if s.get_char(i) == c {
            return true;
        }
        i = i + 1;
    }
    false
}

fn contains_pair(s: &str, a: char, b: char) -> (r: bool)
    ensures
        r == has_pair(s@, a, b),
{
    let n = s.unicode_len();
    if n < 2 {
        return false;
    }
    let mut i: usize = 0;
    while i < n - 1
        invariant
            n == s@.len(),
            n >= 2,
            0 <= i <= n - 1,
            forall|j: int| 0 <= j < i ==> !(#[trigger] s@[j] == a && s@[j + 1] == b),
        decreases n - 1 - i,
    {
        if s.get_char(i) == a && s.get_char(i + 1) == b {
            return true;
        }
        i = i + 1;
    }
    false
}

/// Checks `name` against git's rules for a new branch: not empty, not
/// "HEAD", no spaces, no slash or period at either end, no "//" or "..",
/// none of `~ ^ : ? * [ \ @`, no "@{". The first rule broken is reported.
pub fn validate_branch_name(name: &str) -> (r: Result<(), BranchNameError>)
    ensures
        r == branch_name_verdict(name@),
{
    let n = name.unicode_len();
    if n == 0 {
        return Err(BranchNameError::Empty);
    }
    let head = String::from_str("HEAD");
    let owned = String::from_str(name);
    proof {
        reveal_strlit("HEAD");
        assert(head@ =~= seq!['H', 'E', 'A', 'D']);
    }
    if owned == head {
        return Err(BranchNameError::Reserved);
    }
    if contains_char(name, ' ') {
        return Err(BranchNameError::HasSpace);
    }
    if name.get_char(0) == '/' || name.get_char(n - 1) == '/' {
        return Err(BranchNameError::EdgeSlash);
    }
    if contains_pair(name, '/', '/') {
        return Err(BranchNameError::DoubleSlash);
    }
    if name.get_char(0) == '.' || name.get_char(n - 1) == '.' {
        return Err(BranchNameError::EdgePeriod);
    }
    if contains_pair(name, '.', '.') {
        return Err(BranchNameError::DoublePeriod);
    }
    let forbidden = ['~', '^', ':', '?', '*', '[', '\\', '@'];
    let mut k: usize = 0;
    proof {
        assert(forbidden@ =~= forbidden_chars());
        assert(forbidden_chars().subrange(0, 8) =~= forbidden_chars());
    }
    while k < 8
        invariant
            0 <= k <= 8,
            forbidden@ == forbidden_chars(),
            name@.len() > 0,
            name@ != seq!['H', 'E', 'A', 'D'],
            !has_char(name@, ' '),
            !(name@[0] == '/' || name@.last() == '/'),
            !has_pair(name@, '/', '/'),
            !(name@[0] == '.' || name@.last() == '.'),
            !has_pair(name@, '.', '.'),
            first_held(name@, forbidden_chars()) == first_held(
                name@,
                forbidden_chars().subrange(k as int, 8),
            ),
        decreases 8 - k,
    {
        let c = forbidden[k];
        proof {
            let rest = forbidden_chars().subrange(k as int, 8);
            assert(rest[0] == c);
            assert(rest.drop_first() =~= forbidden_chars().subrange(k as int + 1, 8));
        }
        if contains_char(name, c) {
            proof {
                let rest = forbidden_chars().subrange(k as int, 8);
                assert(first_held(name@, rest) == Some(c));
            }
            return Err(BranchNameError::ForbiddenChar(c));
        }
        k = k + 1;
    }
    proof {
        assert(forbidden_chars().subrange(8, 8) =~= Seq::<char>::empty());
    }
    if contains_pair(name, '@', '{') {
        return Err(BranchNameError::AtBrace);
    }
    Ok(())
}

/// The pieces of `s` between its newlines, as `str::split('\n')` gives them.
pub open spec fn newline_pieces(s: Seq<char>) -> Seq<Seq<char>>
    decreases s.len(),
{
    if s.len() == 0 {
        seq![Seq::<char>::empty()]
    } else if s.last() == '\n' {
        newline_pieces(s.drop_last()).push(Seq::<char>::empty())
    } else {
        let p = newline_pieces(s.drop_last());
        p.update(p.len() - 1, p.last().push(s.last()))
    }
}

/// `line` without one trailing carriage return.
pub open spec fn strip_cr(line: Seq<char>) -> Seq<char> {
    if line.len() > 0 && line.last() == '\r' {
        line.drop_last()
    } else {
        line
    }
}

/// The lines of `s` as `str::lines` gives them: split at newlines, with no
/// empty last line after a final newline, each without a trailing carriage
/// return.
pub open spec fn lines_of(s: Seq<char>) -> Seq<Seq<char>> {
    let p = newline_pieces(s);
    let q = if s.len() == 0 {
        Seq::<Seq<char>>::empty()
    } else if s.last() == '\n' {
        p.drop_last()
    } else {
        p
    };
    q.map_values(|l: Seq<char>| strip_cr(l))
}

/// A worktree as a value: path, branch, detached, locked.
pub type WorktreeView = (Seq<char>, Seq<char>, bool, bool);

/// The value of a worktree.
pub open spec fn worktree_view(w: Worktree) -> WorktreeView {
    (w.path@, w.branch@, w.is_detached, w.is_locked)
}

/// Whether `s` starts with `prefix`.
pub open spec fn starts_with(s: Seq<char>, prefix: Seq<char>) -> bool {
    prefix.len() <= s.len() && s.subrange(0, prefix.len() as int) == prefix
}

/// `s` without `prefix`, which it starts with.
pub open spec fn after_prefix(s: Seq<char>, prefix: Seq<char>) -> Seq<char> {
    s.subrange(prefix.len() as int, s.len() as int)
}

/// The branch named on a `branch` line, without a leading `refs/heads/`.
pub open spec fn short_branch(b: Seq<char>) -> Seq<char> {
    if starts_with(b, "refs/heads/"@) {
        after_prefix(b, "refs/heads/"@)
    } else {
        b
    }
}

/// The parse so far: the worktrees finished and the one being read.
pub type PorcelainState = (Seq<WorktreeView>, Option<WorktreeView>);

/// `done`, with `cur` added unless it is the root worktree.
pub open spec fn finish_entry(done: Seq<WorktreeView>, cur: Option<WorktreeView>, root: Seq<char>) -> Seq<
    WorktreeView,
> {
    match cur {
        Some(w) => if w.0 != root {
            done.push(w)
        } else {
            done
        },
        None => done,
    }
}

/// One line of `git worktree list --porcelain` applied to the parse: an
/// empty line ends the entry being read; `worktree <path>` starts one;
/// `branch <ref>`, `detached` and `locked...` describe it; others are
/// ignored.
pub open spec fn porcelain_step(st: PorcelainState, line: Seq<char>, root: Seq<char>) -> PorcelainState {
    let (done, cur) = st;
    if line.len() == 0 {
        (finish_entry(done, cur, root), None)
    } else if starts_with(line, "worktree "@) {
        (done, Some((after_prefix(line, "worktree "@), Seq::<char>::empty(), false, false)))
    } else if starts_with(line, "branch "@) {
        match cur {
            Some(w) => (done, Some((w.0, short_branch(after_prefix(line, "branch "@)), w.2, w.3))),
            None => (done, None),
        }
    } else if line == "detached"@ {
        match cur {
            Some(w) => (
                done,
                Some((w.0, if w.1.len() == 0 { "HEAD"@ } else { w.1 }, true, w.3)),
            ),
            None => (done, None),
        }
    } else if starts_with(line, "locked"@) {
        match cur {
            Some(w) => (done, Some((w.0, w.1, w.2, true))),
            None => (done, None),
        }
    } else {
        (done, cur)
    }
}

/// The parse after `lines`.
pub open spec fn porcelain_fold(lines: Seq<Seq<char>>, root: Seq<char>) -> PorcelainState
    decreases lines.len(),
{
    if lines.len() == 0 {
        (Seq::empty(), None)
    } else {
        porcelain_step(porcelain_fold(lines.drop_last(), root), lines.last(), root)
    }
}

/// The worktrees that `git worktree list --porcelain` printed as `output`,
/// other than the root worktree at `root`, in order.
pub open spec fn porcelain_worktrees(output: Seq<char>, root: Seq<char>) -> Seq<WorktreeView> {
    let (done, cur) = porcelain_fold(lines_of(output), root);
    finish_entry(done, cur, root)
}

fn str_starts_with(s: &str, prefix: &str) -> (r: bool)
    ensures
        r == starts_with(s@, prefix@),
{
    let n = s.unicode_len();
    let m = prefix.unicode_len();
    if m > n {
        return false;
    }
    let mut i: usize = 0;
    while i < m
        invariant
            m <= n,
            n == s@.len(),
            m == prefix@.len(),
            0 <= i <= m,
            forall|j: int| 0 <= j < i ==> s@[j] == prefix@[j],
        decreases m - i,
    {
        if s.get_char(i) != prefix.get_char(i) {
            proof {
                assert(s@.subrange(0, m as int)[i as int] != prefix@[i as int]);
            }
            return false;
        }
        i = i + 1;
    }
    proof {
        assert(s@.subrange(0, m as int) =~= prefix@);
    }
    true
}

/// Splits `s` as `str::lines` does.
fn split_lines(s: &str) -> (r: Vec<String>)
    ensures
        r@.map_values(|l: String| l@) == lines_of(s@),
{
    let n = s.unicode_len();
    let mut pieces: Vec<String> = Vec::new();
    let mut start: usize = 0;
    let mut i: usize = 0;
    proof {
        assert(s@.subrange(0, 0) =~= Seq::<char>::empty());
        assert(pieces@.map_values(|l: String| l@) =~= Seq::<Seq<char>>::empty());
        assert(newline_pieces(Seq::<char>::empty()) == seq![Seq::<char>::empty()]);
        assert(Seq::<Seq<char>>::empty().push(Seq::<char>::empty()) =~= seq![Seq::<char>::empty()]);
    }
    while i < n
        invariant
            n == s@.len(),
            0 <= start <= i <= n,
            i > 0 && s@[i - 1] == '\n' ==> start == i,
            pieces@.map_values(|l: String| l@).push(s@.subrange(start as int, i as int))
                == newline_pieces(s@.subrange(0, i as int)),
            start == 0 || s@[start - 1] == '\n',
        decreases n - i,
    {
        let ghost old_view = pieces@.map_values(|l: String| l@);
        proof {
            assert(s@.subrange(0, i as int + 1).drop_last() =~= s@.subrange(0, i as int));
        }
        if s.get_char(i) == '\n' {
            pieces.push(String::from_str(s.substring_char(start, i)));
            proof {
                assert(pieces@.map_values(|l: String| l@) =~= old_view.push(
                    s@.subrange(start as int, i as int),
                ));
                assert(s@.subrange(i as int + 1, i as int + 1) =~= Seq::<char>::empty());
            }
            start = i + 1;
        } else {
            proof {
                assert(s@.subrange(start as int, i as int + 1) =~= s@.subrange(
                    start as int,
                    i as int,
                ).push(s@[i as int]));
                let p = newline_pieces(s@.subrange(0, i as int));
                assert(p.update(p.len() - 1, p.last().push(s@[i as int])) =~= old_view.push(
                    s@.subrange(start as int, i as int + 1),
                ));
            }
        }
        i = i + 1;
    }
    proof {
        assert(s@.subrange(0, n as int) =~= s@);
    }
    let ghost all = newline_pieces(s@);
    if start < n {
        pieces.push(String::from_str(s.substring_char(start, n)));
    }
    proof {
        let q = if s@.len() == 0 {
            Seq::<Seq<char>>::empty()
        } else if s@.last() == '\n' {
            all.drop_last()
        } else {
            all
        };
        if n > 0 && s@.last() == '\n' {
            assert(start == n);
            assert(pieces@.map_values(|l: String| l@) =~= all.drop_last());
        } else if n > 0 {
            assert(start < n);
        } else {
            assert(pieces@.len() == 0);
        }
        assert(pieces@.map_values(|l: String| l@) =~= q);
    }
    let mut out: Vec<String> = Vec::new();
    let mut k: usize = 0;
    while k < pieces.len()
        invariant
            0 <= k <= pieces@.len(),
            out@.map_values(|l: String| l@) =~= pieces@.subrange(0, k as int).map_values(
                |l: String| strip_cr(l@),
            ),
        decreases pieces@.len() - k,
    {
        let line = &pieces[k];
        let ghost out0 = out@;
        let len = line.as_str().unicode_len();
        if len > 0 && line.as_str().get_char(len - 1) == '\r' {
            out.push(String::from_str(line.as_str().substring_char(0, len - 1)));
            proof {
                assert(line@.subrange(0, len - 1) =~= line@.drop_last());
            }
        } else {
            out.push(line.clone());
        }
        proof {
            assert(out@ == out0.push(out@.last()));
            assert(out@.last()@ == strip_cr(pieces@[k as int]@));
            assert(pieces@.subrange(0, k as int + 1) =~= pieces@.subrange(0, k as int).push(
                pieces@[k as int],
            ));
            assert(out@.map_values(|l: String| l@) =~= out0.map_values(|l: String| l@).push(
                strip_cr(pieces@[k as int]@),
            ));
        }
        k = k + 1;
    }
    proof {
        assert(pieces@.subrange(0, pieces@.len() as int) =~= pieces@);
        assert(out@.map_values(|l: String| l@) =~= lines_of(s@));
    }
    out
}

/// A worktree entry while its lines are being read.
struct ParsedWorktree {
    path: String,
    branch: String,
    is_detached: bool,
    is_locked: bool,
}

impl ParsedWorktree {
    spec fn view(&self) -> WorktreeView {
        (self.path@, self.branch@, self.is_detached, self.is_locked)
    }

    fn into_worktree(self) -> (w: Worktree)
        ensures
            worktree_view(w) == self.view(),
    {
        Worktree {
            path: self.path,
            branch: self.branch,
            is_detached: self.is_detached,
            is_locked: self.is_locked,
        }
    }
}

spec fn parsed_view(cur: Option<ParsedWorktree>) -> Option<WorktreeView> {
    match cur {
        Some(p) => Some(p.view()),
        None => None,
    }
}

fn str_after(s: &str, prefix: &str) -> (r: String)
    requires
        starts_with(s@, prefix@),
    ensures
        r@ == after_prefix(s@, prefix@),
{
    String::from_str(s.substring_char(prefix.unicode_len(), s.unicode_len()))
}

fn finish_parsed(done: &mut Vec<Worktree>, cur: Option<ParsedWorktree>, root: &String)
    ensures
        final(done)@.map_values(|w: Worktree| worktree_view(w)) == finish_entry(
            old(done)@.map_values(|w: Worktree| worktree_view(w)),
            parsed_view(cur),
            root@,
        ),
{
    let ghost before = done@;
    match cur {
        Some(p) => {
            if p.path != *root {
                done.push(p.into_worktree());
                proof {
                    assert(done@.map_values(|w: Worktree| worktree_view(w)) =~= before.map_values(
                        |w: Worktree| worktree_view(w),
                    ).push(worktree_view(done@.last())));
                }
            }
        },
        None => {},
    }
}

/// The worktrees listed in `output`, the text printed by `git worktree list
/// --porcelain`, other than the root worktree at `root_path`, in order. A
/// `branch` line loses its `refs/heads/` prefix; a detached entry with no
/// branch is on "HEAD".
pub fn parse_worktree_list(output: &str, root_path: &str) -> (r: Vec<Worktree>)
    ensures
        r@.map_values(|w: Worktree| worktree_view(w)) == porcelain_worktrees(output@, root_path@),
{
    let lines = split_lines(output);
    let root = String::from_str(root_path);
    let ghost lv = lines@.map_values(|l: String| l@);
    let mut done: Vec<Worktree> = Vec::new();
    let mut cur: Option<ParsedWorktree> = None;
    let mut k: usize = 0;
    proof {
        assert(lv.subrange(0, 0) =~= Seq::<Seq<char>>::empty());
        assert(done@.map_values(|w: Worktree| worktree_view(w)) =~= Seq::<WorktreeView>::empty());
        reveal_strlit("worktree ");
        reveal_strlit("branch ");
        reveal_strlit("detached");
        reveal_strlit("locked");
        reveal_strlit("refs/heads/");
        reveal_strlit("HEAD");
    }
    while k < lines.len()
        invariant
            0 <= k <= lines@.len(),
            lv == lines@.map_values(|l: String| l@),
            lv == lines_of(output@),
            root@ == root_path@,
            (done@.map_values(|w: Worktree| worktree_view(w)), parsed_view(cur)) == porcelain_fold(
                lv.subrange(0, k as int),
                root@,
            ),
        decreases lines@.len() - k,
    {
        let line = lines[k].as_str();
        let ghost st = porcelain_fold(lv.subrange(0, k as int), root@);
        proof {
            assert(lv.subrange(0, k as int + 1).drop_last() =~= lv.subrange(0, k as int));
            assert(lv.subrange(0, k as int + 1).last() == line@);
        }
        if line.unicode_len() == 0 {
            let c = cur;
            cur = None;
            finish_parsed(&mut done, c, &root);
        } else if str_starts_with(line, "worktree ") {
            cur = Some(
                ParsedWorktree {
                    path: str_after(line, "worktree "),
                    branch: String::new(),
                    is_detached: false,
                    is_locked: false,
                },
            );
        } else if str_starts_with(line, "branch ") {
            let b = str_after(line, "branch ");
            match cur {
                Some(ref mut w) => {
                    if str_starts_with(b.as_str(), "refs/heads/") {
                        w.branch = str_after(b.as_str(), "refs/heads/");
                    } else {
                        w.branch = b;
                    }
                },
                None => {},
            }
        } else if String::from_str(line) == String::from_str("detached") {
            match cur {
                Some(ref mut w) => {
                    w.is_detached = true;
                    if w.branch.as_str().unicode_len() == 0 {
                        w.branch = String::from_str("HEAD");
                    }
                },
                None => {},
            }
        } else if str_starts_with(line, "locked") {
            match cur {
                Some(ref mut w) => {
                    w.is_locked = true;
                },
                None => {},
            }
        }
        k = k + 1;
    }
    proof {
        assert(lv.subrange(0, lines@.len() as int) =~= lv);
    }
    finish_parsed(&mut done, cur, &root);
    done
}

} // verus!
