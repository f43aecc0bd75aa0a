//! The git activity source: repository discovery over a directory-tree
//! snapshot, mapping changed paths back to repositories, parsing history
//! output, and cursor-based commit diffing.
use vstd::prelude::*;

use crate::config::GitSourceConfig;
use crate::kv::KvList;
use crate::strutil::{contains_string, find_char, first_at, ne_lines, split_nonempty_lines, str_eq, str_starts_with};
use crate::watchers::{CommitData, EventKind, RawEvent};

verus! {

/// How many recent commits one history query fetches: the bounded
/// backfill on first sight of a repository.
pub const RECENT_COMMIT_LIMIT: usize = 20;

/// A snapshot of one directory: its name and its subdirectories. Files
/// play no part in discovery, so only directories appear; a contained git
/// metadata directory shows up as a child named `.git`.
pub struct DirNode {
    pub name: String,
    pub children: Vec<DirNode>,
}

/// Directory names never descended into: dependency caches, build output,
/// and the git metadata directory itself.
pub open spec fn excluded_name(n: Seq<char>) -> bool {
    n == "node_modules"@ || n == "target"@ || n == ".git"@
}

/// A directory is a repository root when it directly contains a git
/// metadata directory.
pub open spec fn is_repo_root(node: DirNode) -> bool {
    exists|k: int| 0 <= k < node.children@.len() && node.children@[k].name@ == ".git"@
}

/// The path of a child directory under `prefix`.
pub open spec fn child_path(prefix: Seq<char>, name: Seq<char>) -> Seq<char> {
    prefix + seq!['/'] + name
}

/// Repository roots found strictly below `node` (never `node` itself),
/// descending at most `depth` levels, in depth-first order with a parent
/// repository listed before anything found inside it.
pub open spec fn repos_under(node: DirNode, path: Seq<char>, depth: nat) -> Seq<Seq<char>>
    decreases depth, 1int, 0int,
{
    if depth == 0 {
        Seq::empty()
    } else {
        walk_children(node.children@, path, depth, 0)
    }
}

/// The contribution of children `i..` of a directory at `path`, with
/// `depth` levels of descent still allowed.
pub open spec fn walk_children(cs: Seq<DirNode>, path: Seq<char>, depth: nat, i: int) -> Seq<
    Seq<char>,
>
    recommends
        depth > 0,
    decreases depth, 0int, cs.len() - i,
{
    if i < 0 || i >= cs.len() || depth == 0 {
        Seq::empty()
    } else {
        let c = cs[i];
        let rest = walk_children(cs, path, depth, i + 1);
        if excluded_name(c.name@) {
            rest
        } else {
            let cp = child_path(path, c.name@);
            let here = if is_repo_root(c) {
                seq![cp]
            } else {
                Seq::<Seq<char>>::empty()
            };
            here + repos_under(c, cp, (depth - 1) as nat) + rest
        }
    }
}

/// Does this directory directly contain a git metadata directory?
fn is_repo_dir(node: &DirNode) -> (r: bool)
    ensures
        r == is_repo_root(*node),
{
    let n = node.children.len();
    let mut i: usize = 0;
    while i < n
        invariant
            0 <= i <= n,
            n == node.children@.len(),
            forall|m: int| 0 <= m < i ==> node.children@[m].name@ != ".git"@,
        decreases n - i,
    {
        if str_eq(node.children[i].name.as_str(), ".git") {
            return true;
        }
        i = i + 1;
    }
    false
}

/// The path of `name` under `prefix`, joined with a slash.
fn join_child_path(prefix: &str, name: &str) -> (r: String)
    ensures
        r@ == child_path(prefix@, name@),
{
    proof {
        reveal_strlit("/");
    }
    let mut r = prefix.to_owned();
    r.append("/");
    r.append(name);
    proof {
        assert(r@ =~= child_path(prefix@, name@));
    }
    r
}

/// Is this child's name one of the skipped directory names?
fn is_excluded_dir(name: &str) -> (r: bool)
    ensures
        r == excluded_name(name@),
{
    str_eq(name, "node_modules") || str_eq(name, "target") || str_eq(name, ".git")
}

/// Depth-first search for repository roots below `node`, appending each
/// found root's path to `repos`; descends at most `depth` levels and skips
/// excluded directory names entirely, so nothing inside them is reported.
pub fn walk_for_repos(node: &DirNode, path: &str, depth: u32, repos: &mut Vec<String>)
    ensures
        final(repos).deep_view() == old(repos).deep_view() + repos_under(
            *node,
            path@,
            depth as nat,
        ),
    decreases depth,
{
    if depth == 0 {
        proof {
            assert(repos.deep_view() =~= repos.deep_view() + repos_under(
                *node,
                path@,
                depth as nat,
            ));
        }
        return ;
    }
    let n = node.children.len();
    let mut i: usize = 0;
    while i < n
        invariant
            0 <= i <= n,
            n == node.children@.len(),
            depth > 0,
            old(repos).deep_view() + walk_children(node.children@, path@, depth as nat, 0)
                == repos.deep_view() + walk_children(node.children@, path@, depth as nat, i as int),
        decreases n - i,
    {
        let ghost before = repos.deep_view();
        let child = &node.children[i];
        if !is_excluded_dir(child.name.as_str()) {
            let cp = join_child_path(path, child.name.as_str());
            let ghost mid = before;
            if is_repo_dir(child) {
                repos.push(cp.clone());
                proof {
                    assert(repos.deep_view() =~= before + seq![cp@]);
                }
            }
            let ghost with_here = repos.deep_view();
            walk_for_repos(child, cp.as_str(), depth - 1, repos);
            proof {
                let here: Seq<Seq<char>> = if is_repo_root(*child) {
                    seq![cp@]
                } else {
                    Seq::<Seq<char>>::empty()
                };
                assert(with_here =~= before + here);
                assert(repos.deep_view() =~= before + (here + repos_under(
                    *child,
                    cp@,
                    (depth - 1) as nat,
                )));
                assert(walk_children(node.children@, path@, depth as nat, i as int) == (here
                    + repos_under(*child, cp@, (depth - 1) as nat)) + walk_children(
                    node.children@,
                    path@,
                    depth as nat,
                    i as int + 1,
                ));
                assert(before + ((here + repos_under(*child, cp@, (depth - 1) as nat))
                    + walk_children(node.children@, path@, depth as nat, i as int + 1)) =~= (before
                    + (here + repos_under(*child, cp@, (depth - 1) as nat))) + walk_children(
                    node.children@,
                    path@,
                    depth as nat,
                    i as int + 1,
                ));
            }
        }
        i = i + 1;
    }
    proof {
        assert(walk_children(node.children@, path@, depth as nat, n as int) =~= Seq::<
            Seq<char>,
        >::empty());
        assert(repos.deep_view() + Seq::<Seq<char>>::empty() =~= repos.deep_view());
        assert(final(repos).deep_view() =~= old(repos).deep_view() + repos_under(
            *node,
            path@,
            depth as nat,
        ));
    }
}

/// One configured watch root: its (already expanded) path and the
/// directory tree found there.
pub struct RootDir {
    pub path: String,
    pub tree: DirNode,
}

/// All repository roots discovered from roots `i..` of the snapshot list.
pub open spec fn discovered_from(roots: Seq<RootDir>, depth: nat, i: int) -> Seq<Seq<char>>
    decreases roots.len() - i,
{
    if i < 0 || i >= roots.len() {
        Seq::empty()
    } else {
        repos_under(roots[i].tree, roots[i].path@, depth) + discovered_from(roots, depth, i + 1)
    }
}

/// Walks every snapshot root to the configured depth and returns the
/// repository roots found, in root order then depth-first order.
pub fn discover_repos(roots: &Vec<RootDir>, scan_depth: u32) -> (r: Vec<String>)
    ensures
        r.deep_view() == discovered_from(roots@, scan_depth as nat, 0),
{
    let mut repos: Vec<String> = Vec::new();
    let n = roots.len();
    let mut i: usize = 0;
    proof {
        assert(repos.deep_view() =~= Seq::<Seq<char>>::empty());
    }
    while i < n
        invariant
            0 <= i <= n,
            n == roots@.len(),
            repos.deep_view() + discovered_from(roots@, scan_depth as nat, i as int)
                == discovered_from(roots@, scan_depth as nat, 0),
        decreases n - i,
    {
        let ghost before = repos.deep_view();
        let root = &roots[i];
        walk_for_repos(&root.tree, root.path.as_str(), scan_depth, &mut repos);
        proof {
            assert(before + (repos_under(root.tree, root.path@, scan_depth as nat)
                + discovered_from(roots@, scan_depth as nat, i as int + 1)) =~= (before
                + repos_under(root.tree, root.path@, scan_depth as nat)) + discovered_from(
                roots@,
                scan_depth as nat,
                i as int + 1,
            ));
        }
        i = i + 1;
    }
    proof {
        assert(repos.deep_view() + Seq::<Seq<char>>::empty() =~= repos.deep_view());
    }
    repos
}

/// A leading `~/` replaced by the home directory, when one is known;
/// any other path stands unchanged.
pub open spec fn spec_expand_tilde(p: Seq<char>, home: Option<Seq<char>>) -> Seq<char> {
    if "~/"@.is_prefix_of(p) && home is Some {
        home.unwrap() + seq!['/'] + p.skip(2)
    } else {
        p
    }
}

/// Expands a leading home-directory shorthand in `path` against `home`
/// (the home directory path, when the platform reports one).
pub fn expand_tilde(path: &str, home: &Option<String>) -> (r: String)
    ensures
        r@ == spec_expand_tilde(path@, match home {
            Some(h) => Some(h@),
            None => None,
        }),
{
    if str_starts_with(path, "~/") {
        if let Some(h) = home {
            proof {
                reveal_strlit("~/");
            }
            let n = path.unicode_len();
            let stripped = path.substring_char(2, n);
            let r = join_child_path(h.as_str(), stripped);
            proof {
                assert(path@.skip(2) =~= stripped@);
            }
            return r;
        }
    }
    path.to_owned()
}

/// Does `path` lie within the repository rooted at `repo`: it is the root
/// itself or below it, split at a path separator.
pub open spec fn path_within(path: Seq<char>, repo: Seq<char>) -> bool {
    path == repo || (repo + seq!['/']).is_prefix_of(path)
}

/// Component-wise prefix test of `repo` against `path`.
pub fn path_starts_with_repo(path: &str, repo: &str) -> (r: bool)
    ensures
        r == path_within(path@, repo@),
{
    if str_eq(path, repo) {
        return true;
    }
    proof {
        reveal_strlit("/");
    }
    let pre = repo.to_owned().concat("/");
    proof {
        assert(pre@ =~= repo@ + seq!['/']);
    }
    str_starts_with(path, pre.as_str())
}

/// The first known repository (scanning from position `i`) that contains
/// `path`, or nothing.
pub open spec fn spec_repo_match(path: Seq<char>, repos: Seq<Seq<char>>, i: int) -> Option<
    Seq<char>,
>
    decreases repos.len() - i,
{
    if i < 0 || i >= repos.len() {
        None
    } else if path_within(path, repos[i]) {
        Some(repos[i])
    } else {
        spec_repo_match(path, repos, i + 1)
    }
}

/// The repository a changed path belongs to: the first known repository
/// root that is a component-wise prefix of the path.
pub fn repo_from_event_path(path: &str, known_repos: &Vec<String>) -> (r: Option<String>)
    ensures
        match r {
            Some(s) => spec_repo_match(path@, known_repos.deep_view(), 0) == Some(s@),
            None => spec_repo_match(path@, known_repos.deep_view(), 0) is None,
        },
{
    let n = known_repos.len();
    let mut i: usize = 0;
    while i < n
        invariant
            0 <= i <= n,
            n == known_repos@.len(),
            spec_repo_match(path@, known_repos.deep_view(), 0) == spec_repo_match(
                path@,
                known_repos.deep_view(),
                i as int,
            ),
        decreases n - i,
    {
        if path_starts_with_repo(path, known_repos[i].as_str()) {
            return Some(known_repos[i].clone());
        }
        i = i + 1;
    }
    None
}

/// The distinct repositories touched by a batch of changed paths, in
/// order of first appearance; paths under no known repository are dropped.
pub open spec fn spec_changed_repos(paths: Seq<Seq<char>>, repos: Seq<Seq<char>>) -> Seq<Seq<char>>
    decreases paths.len(),
{
    if paths.len() == 0 {
        Seq::empty()
    } else {
        let prev = spec_changed_repos(paths.drop_last(), repos);
        match spec_repo_match(paths.last(), repos, 0) {
            Some(rp) => if prev.contains(rp) {
                prev
            } else {
                prev.push(rp)
            },
            None => prev,
        }
    }
}

/// Maps a batch of event paths to the repositories they touch,
/// deduplicated, keeping the order of first appearance.
pub fn changed_repos(event_paths: &Vec<String>, known_repos: &Vec<String>) -> (r: Vec<String>)
    ensures
        r.deep_view() == spec_changed_repos(event_paths.deep_view(), known_repos.deep_view()),
{
    let mut out: Vec<String> = Vec::new();
    let n = event_paths.len();
    let mut i: usize = 0;
    proof {
        assert(event_paths.deep_view().subrange(0, 0) =~= Seq::<Seq<char>>::empty());
    }
    while i < n
        invariant
            0 <= i <= n,
            n == event_paths@.len(),
            out.deep_view() == spec_changed_repos(
                event_paths.deep_view().subrange(0, i as int),
                known_repos.deep_view(),
            ),
        decreases n - i,
    {
        let ghost pdv = event_paths.deep_view();
        let ghost prev = out.deep_view();
        proof {
            assert(pdv.subrange(0, i as int + 1).drop_last() =~= pdv.subrange(0, i as int));
            assert(pdv.subrange(0, i as int + 1).last() == pdv[i as int]);
        }
        match repo_from_event_path(event_paths[i].as_str(), known_repos) {
            Some(rp) => {
                let ghost rpv = rp@;
                if !contains_string(&out, rp.as_str()) {
                    out.push(rp);
                    proof {
                        assert(out.deep_view() =~= prev.push(rpv));
                    }
                }
            },
            None => {},
        }
        i = i + 1;
    }
    proof {
        assert(event_paths.deep_view().subrange(0, n as int) =~= event_paths.deep_view());
    }
    out
}

/// One fetched commit: hash, subject line, author, ISO-8601 timestamp.
pub struct Commit {
    pub hash: String,
    pub subject: String,
    pub author: String,
    pub timestamp: String,
}

/// The field views of a commit, in history-line order.
pub open spec fn commit_views(c: Commit) -> (Seq<char>, Seq<char>, Seq<char>, Seq<char>) {
    (c.hash@, c.subject@, c.author@, c.timestamp@)
}

/// A history line split at its first three pipes into hash, subject,
/// author and timestamp (the timestamp keeps any further pipes); a line
/// with fewer than three pipes is malformed and yields nothing.
pub open spec fn spec_parse_commit_line(s: Seq<char>) -> Option<
    (Seq<char>, Seq<char>, Seq<char>, Seq<char>),
> {
    let i = first_at(s, '|', 0);
    if i >= s.len() {
        None
    } else {
        let j = first_at(s, '|', i + 1);
        if j >= s.len() {
            None
        } else {
            let k = first_at(s, '|', j + 1);
            if k >= s.len() {
                None
            } else {
                Some(
                    (
                        s.subrange(0, i),
                        s.subrange(i + 1, j),
                        s.subrange(j + 1, k),
                        s.subrange(k + 1, s.len() as int),
                    ),
                )
            }
        }
    }
}

/// Parses one history line; malformed lines are discarded, not errors.
pub fn parse_commit_line(line: &str) -> (r: Option<Commit>)
    ensures
        match r {
            Some(c) => spec_parse_commit_line(line@) == Some(commit_views(c)),
            None => spec_parse_commit_line(line@) is None,
        },
{
    let n = line.unicode_len();
    let i = find_char(line, 0, '|');
    if i == n {
        return None;
    }
    let j = find_char(line, i + 1, '|');
    if j == n {
        return None;
    }
    let k = find_char(line, j + 1, '|');
    if k == n {
        return None;
    }
    Some(
        Commit {
            hash: line.substring_char(0, i).to_owned(),
            subject: line.substring_char(i + 1, j).to_owned(),
            author: line.substring_char(j + 1, k).to_owned(),
            timestamp: line.substring_char(k + 1, n).to_owned(),
        },
    )
}

/// The well-formed commits among lines `i..`, in line order.
pub open spec fn spec_parse_commits(lines: Seq<Seq<char>>, i: int) -> Seq<
    (Seq<char>, Seq<char>, Seq<char>, Seq<char>),
>
    decreases lines.len() - i,
{
    if i < 0 || i >= lines.len() {
        Seq::empty()
    } else {
        match spec_parse_commit_line(lines[i]) {
            Some(t) => seq![t] + spec_parse_commits(lines, i + 1),
            None => spec_parse_commits(lines, i + 1),
        }
    }
}

/// Parses a whole history output: each non-empty line that splits into
/// four fields becomes a commit, newest first as the history query emits
/// them; malformed lines are dropped.
pub fn parse_commit_lines(output: &str) -> (r: Vec<Commit>)
    ensures
        r@.map_values(|c: Commit| commit_views(c)) == spec_parse_commits(ne_lines(output@), 0),
{
    let lines = split_nonempty_lines(output);
    let ghost ldv = lines.deep_view();
    let mut out: Vec<Commit> = Vec::new();
    let n = lines.len();
    let mut i: usize = 0;
    proof {
        assert(out@.map_values(|c: Commit| commit_views(c)) + spec_parse_commits(ldv, 0)
            =~= spec_parse_commits(ldv, 0));
    }
    while i < n
        invariant
            0 <= i <= n,
            n == lines@.len(),
            ldv == lines.deep_view(),
            out@.map_values(|c: Commit| commit_views(c)) + spec_parse_commits(ldv, i as int)
                == spec_parse_commits(ldv, 0),
        decreases n - i,
    {
        let ghost prev = out@.map_values(|c: Commit| commit_views(c));
        match parse_commit_line(lines[i].as_str()) {
            Some(c) => {
                out.push(c);
                proof {
                    assert(out@.map_values(|cc: Commit| commit_views(cc)) =~= prev.push(
                        commit_views(c),
                    ));
                    assert(prev.push(commit_views(c)) + spec_parse_commits(ldv, i as int + 1)
                        =~= prev + (seq![commit_views(c)] + spec_parse_commits(
                        ldv,
                        i as int + 1,
                    )));
                }
            },
            None => {},
        }
        i = i + 1;
    }
    out
}

/// Commits strictly newer than the cursor hash `h`: the walk from
/// position `i` stops at the first commit whose hash equals `h`.
pub open spec fn tuples_until(
    ts: Seq<(Seq<char>, Seq<char>, Seq<char>, Seq<char>)>,
    h: Seq<char>,
    i: int,
) -> Seq<(Seq<char>, Seq<char>, Seq<char>, Seq<char>)>
    decreases ts.len() - i,
{
    if i < 0 || i >= ts.len() {
        Seq::empty()
    } else if ts[i].0 == h {
        Seq::empty()
    } else {
        seq![ts[i]] + tuples_until(ts, h, i + 1)
    }
}

/// What a diff emits: everything when no cursor exists (bounded backfill
/// on first sight), otherwise the commits ahead of the cursor.
pub open spec fn spec_emitted(
    ts: Seq<(Seq<char>, Seq<char>, Seq<char>, Seq<char>)>,
    cursor: Option<Seq<char>>,
) -> Seq<(Seq<char>, Seq<char>, Seq<char>, Seq<char>)> {
    match cursor {
        None => ts,
        Some(h) => tuples_until(ts, h, 0),
    }
}

/// The walk to the cursor covers exactly the commits before the first
/// match (everything, when nothing matches).
pub proof fn lemma_tuples_until_is(
    ts: Seq<(Seq<char>, Seq<char>, Seq<char>, Seq<char>)>,
    h: Seq<char>,
    i: int,
    p: int,
)
    requires
        0 <= i <= p <= ts.len(),
        forall|m: int| i <= m < p ==> ts[m].0 != h,
        p < ts.len() ==> ts[p].0 == h,
    ensures
        tuples_until(ts, h, i) == ts.subrange(i, p),
    decreases p - i,
{
    if i == p {
        assert(ts.subrange(p, p) =~= Seq::<(Seq<char>, Seq<char>, Seq<char>, Seq<char>)>::empty());
    } else {
        lemma_tuples_until_is(ts, h, i + 1, p);
        assert(seq![ts[i]] + ts.subrange(i + 1, p) =~= ts.subrange(i, p));
    }
}

/// Emission is always a prefix of the fetched list, so newest-first order
/// is preserved; the position `m` returned is where the walk stopped.
pub proof fn lemma_until_prefix(
    ts: Seq<(Seq<char>, Seq<char>, Seq<char>, Seq<char>)>,
    h: Seq<char>,
    i: int,
) -> (m: int)
    requires
        0 <= i <= ts.len(),
    ensures
        i <= m <= ts.len(),
        tuples_until(ts, h, i) == ts.subrange(i, m),
        forall|p: int| i <= p < m ==> ts[p].0 != h,
        m < ts.len() ==> ts[m].0 == h,
    decreases ts.len() - i,
{
    if i >= ts.len() {
        assert(ts.subrange(i, i) =~= Seq::<(Seq<char>, Seq<char>, Seq<char>, Seq<char>)>::empty());
        i
    } else if ts[i].0 == h {
        assert(ts.subrange(i, i) =~= Seq::<(Seq<char>, Seq<char>, Seq<char>, Seq<char>)>::empty());
        i
    } else {
        let m = lemma_until_prefix(ts, h, i + 1);
        assert(seq![ts[i]] + ts.subrange(i + 1, m) =~= ts.subrange(i, m));
        m
    }
}

/// The commit-diffing laws. With no prior cursor, every fetched commit is
/// emitted, in fetched (newest-first) order. When the cursor equals the
/// newest fetched hash — a second diff with nothing new — nothing is
/// emitted. And whatever the cursor, what is emitted is a prefix of the
/// fetched list, so emission order is the fetched order.
pub proof fn lemma_commit_differ(
    ts: Seq<(Seq<char>, Seq<char>, Seq<char>, Seq<char>)>,
    h: Seq<char>,
)
    ensures
        spec_emitted(ts, None) == ts,
        ts.len() > 0 && ts[0].0 == h ==> spec_emitted(ts, Some(h)) == Seq::<
            (Seq<char>, Seq<char>, Seq<char>, Seq<char>),
        >::empty(),
        exists|m: int|
            0 <= m <= ts.len() && spec_emitted(ts, Some(h)) == ts.subrange(0, m),
{
    let m = lemma_until_prefix(ts, h, 0);
    assert(spec_emitted(ts, Some(h)) == ts.subrange(0, m));
}

/// The event a fresh commit becomes: tagged with the `git` source, the
/// commit's own timestamp, and the repository it came from.
fn commit_event(repo: &str, c: &Commit) -> (e: RawEvent)
    ensures
        event_tuple(e) == commit_views(*c),
        e.source@ == "git"@,
        e.kind == EventKind::Commit,
        e.data.repo@ == repo@,
{
    RawEvent {
        source: String::from_str("git"),
        timestamp: c.timestamp.clone(),
        kind: EventKind::Commit,
        data: CommitData {
            repo: repo.to_owned(),
            hash: c.hash.clone(),
            subject: c.subject.clone(),
            author: c.author.clone(),
        },
    }
}

/// The commit fields carried by an emitted event, in history-line order.
pub open spec fn event_tuple(e: RawEvent) -> (Seq<char>, Seq<char>, Seq<char>, Seq<char>) {
    (e.data.hash@, e.data.subject@, e.data.author@, e.timestamp@)
}

/// The git watcher's verified state: its configuration, whether it is
/// running, and the per-repository last-seen commit cursors. The live
/// filesystem watch handles belong to the surrounding application.
pub struct GitWatcher {
    pub config: GitSourceConfig,
    pub running: bool,
    pub cursors: KvList<String>,
}

impl GitWatcher {
    pub open spec fn wf(&self) -> bool {
        self.cursors.wf()
    }

    /// The last-seen commit hash for a repository, if one is recorded.
    pub open spec fn cursor_for(&self, repo: Seq<char>) -> Option<Seq<char>> {
        match self.cursors.spec_get(repo) {
            Some(h) => Some(h@),
            None => None,
        }
    }

    /// A fresh watcher: not yet running, with no cursors — after a
    /// restart all recent history counts as new until cursors rebuild.
    pub fn new(config: GitSourceConfig) -> (r: Self)
        ensures
            r.wf(),
            r.running == false,
            r.config == config,
            forall|rp: Seq<char>| r.cursor_for(rp) is None,
    {
        GitWatcher { config, running: false, cursors: KvList::new() }
    }

    /// Marks the watcher live; the caller registers the filesystem
    /// watches that feed it.
    pub fn start_running(&mut self)
        ensures
            final(self).running == true,
            final(self).config == old(self).config,
            final(self).cursors == old(self).cursors,
    {
        self.running = true;
    }

    /// Halts delivery deterministically; idempotent, whatever state the
    /// watcher was in. The caller drops the watch handles alongside.
    pub fn stop(&mut self)
        ensures
            final(self).running == false,
            final(self).config == old(self).config,
            final(self).cursors == old(self).cursors,
    {
        self.running = false;
    }

    /// Diffs one repository's freshly fetched history against its cursor:
    /// emits the commits ahead of the cursor (all of them on first sight),
    /// newest first, then refreshes the cursor to the newest fetched hash
    /// even when nothing new was emitted.
    pub fn process_repo(&mut self, repo: &str, log_output: &str) -> (events: Vec<RawEvent>)
        requires
            old(self).wf(),
        ensures
            final(self).wf(),
            final(self).running == old(self).running,
            final(self).config == old(self).config,
            ({
                let parsed = spec_parse_commits(ne_lines(log_output@), 0);
                let emitted = spec_emitted(parsed, old(self).cursor_for(repo@));
                &&& events@.map_values(|e: RawEvent| event_tuple(e)) == emitted
                &&& forall|k: int|
                    0 <= k < events@.len() ==> (#[trigger] events@[k]).source@ == "git"@
                        && events@[k].kind == EventKind::Commit && events@[k].data.repo@ == repo@
                &&& (parsed.len() > 0 ==> final(self).cursor_for(repo@) == Some(parsed[0].0))
                &&& (parsed.len() == 0 ==> final(self).cursor_for(repo@) == old(self).cursor_for(
                    repo@,
                ))
                &&& forall|r2: Seq<char>|
                    r2 != repo@ ==> final(self).cursor_for(r2) == old(self).cursor_for(r2)
            }),
    {
        let ghost parsed = spec_parse_commits(ne_lines(log_output@), 0);
        let commits = parse_commit_lines(log_output);
        proof {
            assert(commits@.map_values(|c: Commit| commit_views(c)) == parsed);
        }
        let cursor: Option<String> = match self.cursors.get(repo) {
            Some(hh) => Some(hh.clone()),
            None => None,
        };
        let mut events: Vec<RawEvent> = Vec::new();
        let n = commits.len();
        let mut idx: usize = 0;
        if let Some(h) = &cursor {
            let mut hit = false;
            proof {
                assert(events@.map_values(|e: RawEvent| event_tuple(e)) =~= parsed.subrange(0, 0));
            }
            while idx < n && !hit
                invariant
                    0 <= idx <= n,
                    n == commits@.len(),
                    commits@.map_values(|c: Commit| commit_views(c)) == parsed,
                    forall|k: int|
                        0 <= k < events@.len() ==> (#[trigger] events@[k]).source@ == "git"@
                            && events@[k].kind == EventKind::Commit && events@[k].data.repo@
                            == repo@,
                    hit ==> events@.map_values(|e: RawEvent| event_tuple(e)) == tuples_until(
                        parsed,
                        h@,
                        0,
                    ),
                    !hit ==> events@.map_values(|e: RawEvent| event_tuple(e)) == parsed.subrange(
                        0,
                        idx as int,
                    ),
                    !hit ==> forall|m: int| 0 <= m < idx ==> parsed[m].0 != h@,
                decreases n - idx + (if hit { 0int } else { 1int }),
            {
                let ghost prev = events@.map_values(|e: RawEvent| event_tuple(e));
                let c = &commits[idx];
                if str_eq(c.hash.as_str(), h.as_str()) {
                    proof {
                        assert(parsed[idx as int] == commit_views(commits@[idx as int]));
                        lemma_tuples_until_is(parsed, h@, 0, idx as int);
                    }
                    hit = true;
                } else {
                    events.push(commit_event(repo, c));
                    proof {
                        assert(parsed[idx as int] == commit_views(commits@[idx as int]));
                        assert(events@.map_values(|e: RawEvent| event_tuple(e)) =~= prev.push(
                            parsed[idx as int],
                        ));
                        assert(prev.push(parsed[idx as int]) =~= parsed.subrange(
                            0,
                            idx as int + 1,
                        ));
                    }
                    idx = idx + 1;
                }
            }
            proof {
                if !hit {
                    lemma_tuples_until_is(parsed, h@, 0, n as int);
                    assert(parsed.subrange(0, n as int) =~= parsed);
                }
            }
        } else {
            proof {
                assert(events@.map_values(|e: RawEvent| event_tuple(e)) =~= parsed.subrange(0, 0));
            }
            while idx < n
                invariant
                    0 <= idx <= n,
                    n == commits@.len(),
                    commits@.map_values(|c: Commit| commit_views(c)) == parsed,
                    forall|k: int|
                        0 <= k < events@.len() ==> (#[trigger] events@[k]).source@ == "git"@
                            && events@[k].kind == EventKind::Commit && events@[k].data.repo@
                            == repo@,
                    events@.map_values(|e: RawEvent| event_tuple(e)) == parsed.subrange(
                        0,
                        idx as int,
                    ),
                decreases n - idx,
            {
                let ghost prev = events@.map_values(|e: RawEvent| event_tuple(e));
                let c = &commits[idx];
                events.push(commit_event(repo, c));
                proof {
                    assert(parsed[idx as int] == commit_views(commits@[idx as int]));
                    assert(events@.map_values(|e: RawEvent| event_tuple(e)) =~= prev.push(
                        parsed[idx as int],
                    ));
                    assert(prev.push(parsed[idx as int]) =~= parsed.subrange(0, idx as int + 1));
                }
                idx = idx + 1;
            }
            proof {
                assert(parsed.subrange(0, n as int) =~= parsed);
            }
        }
        if commits.len() > 0 {
            let newest = commits[0].hash.clone();
            proof {
                assert(parsed[0] == commit_views(commits@[0]));
            }
            self.cursors.insert(repo.to_owned(), newest);
        }
        events
    }
}

} // verus!
