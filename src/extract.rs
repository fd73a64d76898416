//! The decisions of commit extraction: which commits are scanned, how they
//! are cut into batches, what a changed-file probe's output means, and how
//! probe results that arrive in any order are tied back to their commits.
use vstd::prelude::*;
use crate::history::{strs, CommitInfo, RepositoryStats};

verus! {

/// Above this many reachable commits only the most recent ones are scanned.
pub const MAX_COMMITS_FOR_FULL_ANALYSIS: usize = 20000;

/// Commits whose metadata is read before their probes are dispatched.
pub const DEFAULT_BATCH_SIZE: usize = 50;

/// Probes that may run at once.
pub const DEFAULT_CONCURRENCY_LIMIT: usize = 32;

/// Seconds after which a probe is abandoned.
pub const DEFAULT_PROBE_TIMEOUT_SECONDS: u64 = 30;

/// Changed paths kept per commit.
pub const MAX_FILES_PER_COMMIT: usize = 20;

/// What the sequential phase reads of one commit.
#[derive(Debug)]
pub struct CommitMeta {
    pub id: String,
    pub message: String,
    pub author: String,
    pub author_email: String,
    pub committer: String,
    pub committer_email: String,
    pub authored_date: i64,
    pub committed_date: i64,
    /// The commit has no parent.
    pub is_root: bool,
}

/// The commits to scan, newest first: all of them, or the `limit` most
/// recent when there are more.
pub open spec fn sampled(ids: Seq<String>, limit: nat) -> Seq<String> {
    if ids.len() > limit { ids.subrange(0, limit as int) } else { ids }
}

/// Narrows the reverse-chronological commit ids to the ones that are
/// scanned.
pub fn select_commits(ids: Vec<String>, limit: usize) -> (r: Vec<String>)
    ensures
        r@ == sampled(ids@, limit as nat),
{
    let mut ids = ids;
    if ids.len() > limit {
        ids.truncate(limit);
    }
    ids
}

/// Batch `b` covers positions `b * size` up to `(b + 1) * size`, cut at `n`.
pub open spec fn batch_range(n: nat, size: nat, b: nat) -> (nat, nat) {
    let lo = b * size;
    let hi = if (b + 1) * size <= n { (b + 1) * size } else { n };
    (lo, hi)
}

/// Number of batches of `size` needed for `n` commits.
pub open spec fn batch_count(n: nat, size: nat) -> nat {
    if size == 0 { 0 } else { (n + size - 1) as nat / size }
}

proof fn lemma_div_exact(x: int, d: int, q: int)
    requires
        d > 0,
        q * d <= x,
        x < (q + 1) * d,
    ensures
        x / d == q,
{
    vstd::arithmetic::div_mod::lemma_fundamental_div_mod(x, d);
    let r = x / d;
    let m = x % d;
    assert(0 <= m < d);
    assert(r == q) by (nonlinear_arith)
        requires
            d > 0,
            x == d * r + m,
            0 <= m < d,
            q * d <= x,
            x < (q + 1) * d,
    ;
}

/// Cuts `n` positions into consecutive batches of `size`; the last may be
/// shorter.
pub fn batch_bounds(n: usize, size: usize) -> (r: Vec<(usize, usize)>)
    requires
        size > 0,
    ensures
        r.len() == batch_count(n as nat, size as nat),
        forall|b: int|
            0 <= b < r.len() ==> (#[trigger] r@[b]).0 as nat == batch_range(n as nat, size as nat, b as nat).0
                && r@[b].1 as nat == batch_range(n as nat, size as nat, b as nat).1,
{
    let mut r: Vec<(usize, usize)> = Vec::new();
    let mut lo: usize = 0;
    proof {
        assert(0 * size == 0) by (nonlinear_arith);
        if n > 0 {
            let x = n + size - 1;
            vstd::arithmetic::div_mod::lemma_fundamental_div_mod(x, size as int);
            let c = x / (size as int);
            assert(c >= 1) by (nonlinear_arith)
                requires
                    size > 0,
                    x >= size,
                    x == size * c + x % (size as int),
                    x % (size as int) < size,
            ;
        } else {
            lemma_div_exact(size - 1, size as int, 0);
        }
    }
    while lo < n
        invariant
            size > 0,
            lo <= n,
            lo < n ==> lo as nat == r.len() * size,
            lo < n ==> r.len() < batch_count(n as nat, size as nat),
            lo >= n ==> r.len() == batch_count(n as nat, size as nat),
            forall|b: int|
                0 <= b < r.len() ==> (#[trigger] r@[b]).0 as nat == batch_range(n as nat, size as nat, b as nat).0
                    && r@[b].1 as nat == batch_range(n as nat, size as nat, b as nat).1,
        decreases n - lo,
    {
        let hi: usize = if n - lo > size { lo + size } else { n };
        let ghost b = r.len() as nat;
        let ghost m = b + 1;
        proof {
            assert(m * size == b * size + size) by (nonlinear_arith)
                requires
                    m == b + 1,
            ;
        }
        r.push((lo, hi));
        assert(r@[b as int] == (lo, hi));
        lo = hi;
        proof {
            let x = n + size - 1;
            if lo < n {
                let c = x / (size as int);
                vstd::arithmetic::div_mod::lemma_fundamental_div_mod(x, size as int);
                assert(m < c) by (nonlinear_arith)
                    requires
                        size > 0,
                        m * size + size <= x,
                        x == size * c + x % (size as int),
                        x % (size as int) < size,
                ;
            } else {
                assert((m + 1) * size == m * size + size) by (nonlinear_arith);
                lemma_div_exact(x, size as int, m as int);
            }
        }
    }
    r
}

/// `lines` without its empty entries.
pub open spec fn non_empty_lines(lines: Seq<Seq<char>>) -> Seq<Seq<char>>
    decreases lines.len(),
{
    if lines.len() == 0 {
        lines
    } else {
        let rest = non_empty_lines(lines.drop_last());
        if lines.last().len() > 0 { rest.push(lines.last()) } else { rest }
    }
}

/// The first `max` entries of `s`.
pub open spec fn first_n(s: Seq<Seq<char>>, max: nat) -> Seq<Seq<char>> {
    if s.len() > max { s.subrange(0, max as int) } else { s }
}

/// The paths a probe reports: its non-empty output lines, at most `max`.
pub open spec fn capped_paths(lines: Seq<Seq<char>>, max: nat) -> Seq<Seq<char>> {
    first_n(non_empty_lines(lines), max)
}

/// Copies a list of strings.
pub fn clone_strings(v: &Vec<String>) -> (r: Vec<String>)
    ensures
        strs(r@) == strs(v@),
{
    let mut r: Vec<String> = Vec::new();
    let mut i: usize = 0;
    while i < v.len()
        invariant
            0 <= i <= v.len(),
            strs(r@) == strs(v@.subrange(0, i as int)),
        decreases v.len() - i,
    {
        let ghost before = strs(r@);
        r.push(v[i].clone());
        assert(strs(r@) =~= before.push(v@[i as int]@));
        assert(strs(v@.subrange(0, i + 1)) =~= strs(v@.subrange(0, i as int)).push(v@[i as int]@));
        i += 1;
    }
    assert(v@.subrange(0, i as int) =~= v@);
    r
}

/// Turns a probe's output lines into the commit's changed paths: empty
/// lines are dropped, and the first `max` paths kept.
pub fn cap_files(lines: &Vec<String>, max: usize) -> (r: Vec<String>)
    ensures
        strs(r@) == capped_paths(strs(lines@), max as nat),
{
    let ghost all = strs(lines@);
    let n = lines.len();
    let mut r: Vec<String> = Vec::new();
    let mut i: usize = 0;
    while i < n
        invariant
            n == lines.len(),
            all == strs(lines@),
            0 <= i <= n,
            strs(r@) == first_n(non_empty_lines(all.subrange(0, i as int)), max as nat),
        decreases n - i,
    {
        let ghost pre = all.subrange(0, i as int);
        let ghost cur = all.subrange(0, i as int + 1);
        assert(cur.drop_last() =~= pre);
        assert(cur.last() == lines@[i as int]@);
        if !lines[i].as_str().is_empty() && r.len() < max {
            let ghost before = strs(r@);
            r.push(lines[i].clone());
            assert(strs(r@) =~= before.push(lines@[i as int]@));
            assert(non_empty_lines(cur) == non_empty_lines(pre).push(lines@[i as int]@));
            assert(first_n(non_empty_lines(cur), max as nat) =~= before.push(lines@[i as int]@));
        } else if !lines[i].as_str().is_empty() {
            assert(non_empty_lines(cur) == non_empty_lines(pre).push(lines@[i as int]@));
            assert(first_n(non_empty_lines(cur), max as nat) =~= first_n(non_empty_lines(pre), max as nat));
        }
        i += 1;
    }
    assert(all.subrange(0, n as int) =~= all);
    r
}

/// The first query of a commit's changed-file probe.
#[derive(Debug, Clone, Copy, PartialEq, Eq, Structural)]
pub enum ProbeKind {
    /// List the paths changed against the first parent.
    DiffFirstParent,
    /// List every path of the commit's tree.
    ListTree,
}

/// A root commit has no parent to diff against: its whole tree is listed.
/// Any other commit is diffed against its first parent.
pub fn first_probe(is_root: bool) -> (r: ProbeKind)
    ensures
        r == (if is_root { ProbeKind::ListTree } else { ProbeKind::DiffFirstParent }),
{
    if is_root {
        ProbeKind::ListTree
    } else {
        ProbeKind::DiffFirstParent
    }
}

/// What to do after the first probe of a commit, which lists the paths
/// changed against its first parent.
#[derive(Debug)]
pub enum ProbeStep {
    /// These are the commit's changed paths.
    Done(Vec<String>),
    /// Nothing was listed, as for a root commit: list the commit's whole tree.
    ListTree,
}

/// Decides on the output of the first-parent probe. `None` stands for a
/// probe that failed or exited with an error: the commit gets no paths.
pub fn after_diff(output: Option<Vec<String>>, max: usize) -> (r: ProbeStep)
    ensures
        match output {
            None => r is Done && r->Done_0@.len() == 0,
            Some(lines) => if capped_paths(strs(lines@), max as nat).len() == 0 {
                r is ListTree
            } else {
                r is Done && strs(r->Done_0@) == capped_paths(strs(lines@), max as nat)
            },
        },
{
    match output {
        None => ProbeStep::Done(Vec::new()),
        Some(lines) => {
            let files = cap_files(&lines, max);
            if files.len() == 0 {
                ProbeStep::ListTree
            } else {
                ProbeStep::Done(files)
            }
        },
    }
}

/// The paths of a commit from the whole-tree listing; a failed listing
/// gives none.
pub fn after_tree_listing(output: Option<Vec<String>>, max: usize) -> (r: Vec<String>)
    ensures
        match output {
            None => r@.len() == 0,
            Some(lines) => strs(r@) == capped_paths(strs(lines@), max as nat),
        },
{
    match output {
        None => Vec::new(),
        Some(lines) => cap_files(&lines, max),
    }
}

/// The paths reported for batch position `i`: those of the last result
/// tagged `i`, if any.
pub open spec fn reported_files(rs: Seq<(usize, Vec<String>)>, i: int) -> Option<Seq<Seq<char>>>
    decreases rs.len(),
{
    if rs.len() == 0 {
        None
    } else if rs.last().0 as int == i {
        Some(strs(rs.last().1@))
    } else {
        reported_files(rs.drop_last(), i)
    }
}

/// The paths given to batch position `i`: none when no probe reported.
pub open spec fn files_for(rs: Seq<(usize, Vec<String>)>, i: int) -> Seq<Seq<char>> {
    match reported_files(rs, i) {
        Some(f) => f,
        None => Seq::empty(),
    }
}

/// `c` carries the metadata `m` and no line counts or branch.
pub open spec fn carries(c: CommitInfo, m: CommitMeta) -> bool {
    &&& c.id@ == m.id@
    &&& c.message@ == m.message@
    &&& c.author@ == m.author@
    &&& c.author_email@ == m.author_email@
    &&& c.committer@ == m.committer@
    &&& c.committer_email@ == m.committer_email@
    &&& c.authored_date == m.authored_date
    &&& c.committed_date == m.committed_date
    &&& c.insertions == 0
    &&& c.deletions == 0
    &&& c.branch.is_none()
}

/// The commit records of one batch.
pub open spec fn assembled(
    out: Seq<CommitInfo>,
    metas: Seq<CommitMeta>,
    results: Seq<(usize, Vec<String>)>,
) -> bool {
    &&& out.len() == metas.len()
    &&& forall|i: int|
        0 <= i < out.len() ==> carries(#[trigger] out[i], metas[i]) && strs(out[i].files_changed@)
            == files_for(results, i)
}

/// Joins a batch's metadata, in batch order, with its probe results, which
/// arrive in completion order each tagged with its batch position. A
/// position whose probe timed out or failed, and so reported nothing, gets
/// no paths; no other position is affected by it.
pub fn assemble_batch(metas: &Vec<CommitMeta>, results: &Vec<(usize, Vec<String>)>) -> (r: Vec<
    CommitInfo,
>)
    ensures
        assembled(r@, metas@, results@),
{
    let n = metas.len();
    let mut slots: Vec<Vec<String>> = Vec::new();
    let mut i: usize = 0;
    while i < n
        invariant
            n == metas.len(),
            0 <= i <= n,
            slots.len() == i,
            forall|q: int| 0 <= q < i ==> (#[trigger] slots@[q])@.len() == 0,
        decreases n - i,
    {
        slots.push(Vec::new());
        i += 1;
    }
    assert forall|q: int| 0 <= q < n implies strs((#[trigger] slots@[q])@) == files_for(
        results@.subrange(0, 0),
        q,
    ) by {
        assert(strs(slots@[q]@) =~= Seq::<Seq<char>>::empty());
    }
    let mut j: usize = 0;
    while j < results.len()
        invariant
            n == metas.len(),
            slots.len() == n,
            0 <= j <= results.len(),
            forall|q: int| 0 <= q < n ==> strs((#[trigger] slots@[q])@) == files_for(
                results@.subrange(0, j as int),
                q,
            ),
        decreases results.len() - j,
    {
        let tag = results[j].0;
        let ghost pre = results@.subrange(0, j as int);
        let ghost cur = results@.subrange(0, j as int + 1);
        assert(cur.drop_last() =~= pre);
        if tag < n {
            let files = clone_strings(&results[j].1);
            slots.set(tag, files);
        }
        j += 1;
    }
    assert(results@.subrange(0, j as int) =~= results@);
    let mut r: Vec<CommitInfo> = Vec::new();
    let mut k: usize = 0;
    while k < n
        invariant
            n == metas.len(),
            slots.len() == n,
            0 <= k <= n,
            r.len() == k,
            forall|q: int| 0 <= q < n ==> strs((#[trigger] slots@[q])@) == files_for(results@, q),
            forall|q: int|
                0 <= q < k ==> carries(#[trigger] r@[q], metas@[q]) && strs(r@[q].files_changed@)
                    == files_for(results@, q),
        decreases n - k,
    {
        let m = &metas[k];
        let files = clone_strings(&slots[k]);
        r.push(CommitInfo {
            id: m.id.clone(),
            message: m.message.clone(),
            author: m.author.clone(),
            author_email: m.author_email.clone(),
            committer: m.committer.clone(),
            committer_email: m.committer_email.clone(),
            authored_date: m.authored_date,
            committed_date: m.committed_date,
            files_changed: files,
            insertions: 0,
            deletions: 0,
            branch: None,
        });
        k += 1;
    }
    r
}

/// A probe that reported nothing, because it timed out or failed, costs
/// only its own commit's paths: that commit keeps its metadata, and every
/// other commit of the batch gets its metadata and exactly the paths its
/// own probe reported.
pub proof fn lemma_failed_probe_isolated(
    out: Seq<CommitInfo>,
    metas: Seq<CommitMeta>,
    results: Seq<(usize, Vec<String>)>,
    failed: int,
)
    requires
        assembled(out, metas, results),
        0 <= failed < metas.len(),
        reported_files(results, failed) is None,
    ensures
        carries(out[failed], metas[failed]),
        out[failed].files_changed@.len() == 0,
        forall|i: int|
            0 <= i < out.len() && i != failed ==> carries(#[trigger] out[i], metas[i]) && (
            reported_files(results, i) matches Some(f) ==> strs(out[i].files_changed@) == f),
{
    assert(strs(out[failed].files_changed@).len() == 0);
}

/// The scanned commits are the walk's newest ones, in the walk's order:
/// a prefix of it, as long as the limit allows. The same walk always gives
/// the same selection.
pub proof fn lemma_selection_is_prefix(ids: Seq<String>, limit: nat)
    ensures
        sampled(ids, limit).len() == if ids.len() > limit { limit } else { ids.len() },
        sampled(ids, limit) == ids.subrange(0, sampled(ids, limit).len() as int),
{
    assert(ids.subrange(0, ids.len() as int) =~= ids);
}

/// The batches cover positions `0..n` in order, each one starting where the
/// previous ended, none empty and none longer than `size`.
pub proof fn lemma_batches_partition(n: nat, size: nat)
    requires
        size > 0,
    ensures
        n > 0 ==> batch_count(n, size) >= 1 && batch_range(n, size, 0).0 == 0,
        n > 0 ==> batch_range(n, size, (batch_count(n, size) - 1) as nat).1 == n,
        forall|b: nat|
            b + 1 < batch_count(n, size) ==> (#[trigger] batch_range(n, size, b)).1 == batch_range(
                n,
                size,
                b + 1,
            ).0,
        forall|b: nat|
            b < batch_count(n, size) ==> (#[trigger] batch_range(n, size, b)).0 < batch_range(
                n,
                size,
                b,
            ).1 <= batch_range(n, size, b).0 + size,
{
    let c = batch_count(n, size);
    let x = n + size - 1;
    vstd::arithmetic::div_mod::lemma_fundamental_div_mod(x, size as int);
    assert(0 <= x % (size as int) < size);
    assert(x == size * c + x % (size as int));
    assert(c * size <= x) by (nonlinear_arith)
        requires
            x == size * c + x % (size as int),
            0 <= x % (size as int),
    ;
    assert(x < (c + 1) * size) by (nonlinear_arith)
        requires
            x == size * c + x % (size as int),
            x % (size as int) < size,
    ;
    if n > 0 {
        assert(c >= 1) by (nonlinear_arith)
            requires
                size > 0,
                x >= size,
                x < (c + 1) * size,
        ;
        assert(0 * size == 0) by (nonlinear_arith);
        let l = (c - 1) as nat;
        assert(l * size < n) by (nonlinear_arith)
            requires
                l + 1 == c,
                c * size <= n + size - 1,
        ;
        assert(n <= c * size) by (nonlinear_arith)
            requires
                n + size - 1 < (c + 1) * size,
        ;
        assert((l + 1) * size == c * size);
    }
    assert forall|b: nat| b + 1 < c implies (#[trigger] batch_range(n, size, b)).1 == batch_range(
        n,
        size,
        b + 1,
    ).0 by {
        assert((b + 1) * size <= n) by (nonlinear_arith)
            requires
                b + 2 <= c,
                c * size <= n + size - 1,
        ;
    }
    assert forall|b: nat| b < c implies (#[trigger] batch_range(n, size, b)).0 < batch_range(
        n,
        size,
        b,
    ).1 <= batch_range(n, size, b).0 + size by {
        assert(b * size < n) by (nonlinear_arith)
            requires
                b + 1 <= c,
                c * size <= n + size - 1,
                size > 0,
        ;
        assert((b + 1) * size == b * size + size) by (nonlinear_arith);
    }
}

} // verus!
