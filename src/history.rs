//! Per-file and per-author histories folded from an ordered commit stream,
//! and the lists derived from them.
use vstd::prelude::*;
use crate::text::{contains_str, lower_of, lowercase, occurs_in};
use crate::ranking::{top_indices, top_ranked, usize_keys, as_ints, lemma_top_ranked_len};

verus! {

/// One commit as read from the repository. Timestamps are seconds since the
/// Unix epoch.
#[derive(Debug)]
pub struct CommitInfo {
    pub id: String,
    pub message: String,
    pub author: String,
    pub author_email: String,
    pub committer: String,
    pub committer_email: String,
    pub authored_date: i64,
    pub committed_date: i64,
    pub files_changed: Vec<String>,
    pub insertions: usize,
    pub deletions: usize,
    pub branch: Option<String>,
}

/// Everything known of one path: the commits that touched it, in the order
/// they were folded, and the distinct authors of those commits.
#[derive(Debug)]
pub struct FileHistory {
    pub path: String,
    pub commits: Vec<String>,
    pub authors: Vec<String>,
    pub first_commit: i64,
    pub last_commit: i64,
    pub total_changes: usize,
}

pub struct FileView {
    pub path: Seq<char>,
    pub commits: Seq<Seq<char>>,
    pub authors: Seq<Seq<char>>,
    pub first_commit: int,
    pub last_commit: int,
    pub total_changes: nat,
}

pub open spec fn strs(v: Seq<String>) -> Seq<Seq<char>> {
    v.map_values(|s: String| s@)
}

impl View for FileHistory {
    type V = FileView;

    open spec fn view(&self) -> FileView {
        FileView {
            path: self.path@,
            commits: strs(self.commits@),
            authors: strs(self.authors@),
            first_commit: self.first_commit as int,
            last_commit: self.last_commit as int,
            total_changes: self.total_changes as nat,
        }
    }
}

pub open spec fn file_views(v: Seq<FileHistory>) -> Seq<FileView> {
    v.map_values(|f: FileHistory| f@)
}

pub open spec fn min_int(a: int, b: int) -> int {
    if a <= b { a } else { b }
}

pub open spec fn max_int(a: int, b: int) -> int {
    if a >= b { a } else { b }
}

/// `s` with `x` appended unless it is already there.
pub open spec fn add_unique(s: Seq<Seq<char>>, x: Seq<char>) -> Seq<Seq<char>> {
    if s.contains(x) { s } else { s.push(x) }
}

/// A file's history after one more commit touched it.
pub open spec fn touched(f: FileView, id: Seq<char>, author: Seq<char>, date: int) -> FileView {
    FileView {
        path: f.path,
        commits: f.commits.push(id),
        authors: add_unique(f.authors, author),
        first_commit: min_int(f.first_commit, date),
        last_commit: max_int(f.last_commit, date),
        total_changes: f.total_changes + 1,
    }
}

/// The history of a path first touched by the given commit.
pub open spec fn fresh_file(path: Seq<char>, id: Seq<char>, author: Seq<char>, date: int) -> FileView {
    FileView {
        path,
        commits: seq![id],
        authors: seq![author],
        first_commit: date,
        last_commit: date,
        total_changes: 1,
    }
}

pub open spec fn has_path(fs: Seq<FileView>, path: Seq<char>) -> bool {
    exists|k: int| 0 <= k < fs.len() && (#[trigger] fs[k]).path == path
}

pub open spec fn path_index(fs: Seq<FileView>, path: Seq<char>) -> int {
    choose|k: int| 0 <= k < fs.len() && (#[trigger] fs[k]).path == path
}

/// The histories after one commit touched `path`.
pub open spec fn touch_one(
    fs: Seq<FileView>,
    path: Seq<char>,
    id: Seq<char>,
    author: Seq<char>,
    date: int,
) -> Seq<FileView> {
    if has_path(fs, path) {
        let k = path_index(fs, path);
        fs.update(k, touched(fs[k], id, author, date))
    } else {
        fs.push(fresh_file(path, id, author, date))
    }
}

/// The histories after one commit touched each of `paths` in turn.
pub open spec fn touch_files(
    fs: Seq<FileView>,
    paths: Seq<Seq<char>>,
    id: Seq<char>,
    author: Seq<char>,
    date: int,
) -> Seq<FileView>
    decreases paths.len(),
{
    if paths.len() == 0 {
        fs
    } else {
        touch_one(touch_files(fs, paths.drop_last(), id, author, date), paths.last(), id, author, date)
    }
}

/// Paths are unique, each history counts the commits it lists, and its
/// author list has no repeats.
pub open spec fn files_wf(fs: Seq<FileView>) -> bool {
    &&& forall|i: int, j: int|
        0 <= i < j < fs.len() ==> (#[trigger] fs[i]).path != (#[trigger] fs[j]).path
    &&& forall|i: int|
        0 <= i < fs.len() ==> {
            &&& (#[trigger] fs[i]).total_changes == fs[i].commits.len()
            &&& fs[i].authors.no_duplicates()
            &&& fs[i].authors.len() >= 1
        }
}

/// Sum of `total_changes` over all histories.
pub open spec fn sum_changes(fs: Seq<FileView>) -> nat
    decreases fs.len(),
{
    if fs.len() == 0 {
        0
    } else {
        sum_changes(fs.drop_last()) + fs.last().total_changes
    }
}

proof fn lemma_sum_changes_push(fs: Seq<FileView>, f: FileView)
    ensures
        sum_changes(fs.push(f)) == sum_changes(fs) + f.total_changes,
{
    assert(fs.push(f).drop_last() =~= fs);
}

proof fn lemma_sum_changes_update(fs: Seq<FileView>, k: int, f: FileView)
    requires
        0 <= k < fs.len(),
    ensures
        sum_changes(fs.update(k, f)) + fs[k].total_changes == sum_changes(fs) + f.total_changes,
    decreases fs.len(),
{
    let u = fs.update(k, f);
    if k == fs.len() - 1 {
        assert(u.drop_last() =~= fs.drop_last());
    } else {
        assert(u.drop_last() =~= fs.drop_last().update(k, f));
        lemma_sum_changes_update(fs.drop_last(), k, f);
    }
}

proof fn lemma_touch_one(fs: Seq<FileView>, path: Seq<char>, id: Seq<char>, author: Seq<char>, date: int)
    requires
        files_wf(fs),
    ensures
        files_wf(touch_one(fs, path, id, author, date)),
        sum_changes(touch_one(fs, path, id, author, date)) == sum_changes(fs) + 1,
        has_path(touch_one(fs, path, id, author, date), path),
{
    let r = touch_one(fs, path, id, author, date);
    if has_path(fs, path) {
        let k = path_index(fs, path);
        let t = touched(fs[k], id, author, date);
        lemma_sum_changes_update(fs, k, t);
        assert(r[k].path == path);
        assert forall|i: int| 0 <= i < r.len() implies {
            &&& (#[trigger] r[i]).total_changes == r[i].commits.len()
            &&& r[i].authors.no_duplicates()
            &&& r[i].authors.len() >= 1
        } by {
            if i == k {
                if !fs[k].authors.contains(author) {
                    assert forall|a: int, b: int|
                        0 <= a < b < t.authors.len() implies t.authors[a] != t.authors[b] by {
                        if b == t.authors.len() - 1 {
                            assert(fs[k].authors[a] == t.authors[a]);
                        }
                    }
                }
            }
        }
    } else {
        let nf = fresh_file(path, id, author, date);
        lemma_sum_changes_push(fs, nf);
        assert(r[fs.len() as int].path == path);
        assert forall|i: int, j: int|
            0 <= i < j < r.len() implies (#[trigger] r[i]).path != (#[trigger] r[j]).path by {
            if j == fs.len() {
                assert(fs[i].path != path);
            }
        }
        assert(nf.authors.no_duplicates());
    }
}

proof fn lemma_touch_files_prefix(
    fs: Seq<FileView>,
    paths: Seq<Seq<char>>,
    j: int,
    id: Seq<char>,
    author: Seq<char>,
    date: int,
)
    requires
        0 <= j < paths.len(),
    ensures
        touch_files(fs, paths.subrange(0, j + 1), id, author, date) == touch_one(
            touch_files(fs, paths.subrange(0, j), id, author, date),
            paths[j],
            id,
            author,
            date,
        ),
{
    assert(paths.subrange(0, j + 1).drop_last() =~= paths.subrange(0, j));
}

/// Whether `v` holds a string equal to `s`.
pub fn contains_string(v: &Vec<String>, s: &String) -> (r: bool)
    ensures
        r == strs(v@).contains(s@),
{
    let mut i: usize = 0;
    while i < v.len()
        invariant
            0 <= i <= v.len(),
            forall|j: int| 0 <= j < i ==> v@[j]@ != s@,
        decreases v.len() - i,
    {
        if v[i] == *s {
            assert(strs(v@)[i as int] == s@);
            return true;
        }
        i += 1;
    }
    proof {
        if strs(v@).contains(s@) {
            let j = choose|j: int| 0 <= j < strs(v@).len() && strs(v@)[j] == s@;
            assert(v@[j]@ == s@);
        }
    }
    false
}

fn find_file(fs: &Vec<FileHistory>, path: &String) -> (r: Option<usize>)
    ensures
        match r {
            Some(k) => k < fs.len() && fs@[k as int].path@ == path@,
            None => !has_path(file_views(fs@), path@),
        },
{
    let mut i: usize = 0;
    while i < fs.len()
        invariant
            0 <= i <= fs.len(),
            forall|j: int| 0 <= j < i ==> fs@[j].path@ != path@,
        decreases fs.len() - i,
    {
        if fs[i].path == *path {
            return Some(i);
        }
        i += 1;
    }
    proof {
        if has_path(file_views(fs@), path@) {
            let k = path_index(file_views(fs@), path@);
            assert(fs@[k].path@ == path@);
        }
    }
    None
}

fn touch_file(fs: &mut Vec<FileHistory>, path: &String, commit: &CommitInfo)
    requires
        files_wf(file_views(old(fs)@)),
    ensures
        file_views(final(fs)@) == touch_one(
            file_views(old(fs)@),
            path@,
            commit.id@,
            commit.author@,
            commit.authored_date as int,
        ),
{
    let ghost old_views = file_views(fs@);
    let date = commit.authored_date;
    match find_file(fs, path) {
        Some(k) => {
            proof {
                assert(old_views[k as int].path == path@);
                assert(has_path(old_views, path@));
                let pk = path_index(old_views, path@);
                assert(pk == k as int);
            }
            let mut f = FileHistory {
                path: String::new(),
                commits: Vec::new(),
                authors: Vec::new(),
                first_commit: 0,
                last_commit: 0,
                total_changes: 0,
            };
            fs.set_and_swap(k, &mut f);
            let ghost before = f@;
            f.commits.push(commit.id.clone());
            if !contains_string(&f.authors, &commit.author) {
                f.authors.push(commit.author.clone());
            }
            f.total_changes = f.commits.len();
            if date < f.first_commit {
                f.first_commit = date;
            }
            if date > f.last_commit {
                f.last_commit = date;
            }
            proof {
                let t = touched(before, commit.id@, commit.author@, date as int);
                assert(f@.commits =~= t.commits);
                assert(f@.authors =~= t.authors);
            }
            fs.set(k, f);
            proof {
                assert(file_views(fs@) =~= old_views.update(
                    k as int,
                    touched(old_views[k as int], commit.id@, commit.author@, date as int),
                ));
            }
        },
        None => {
            let mut commits: Vec<String> = Vec::new();
            commits.push(commit.id.clone());
            let mut authors: Vec<String> = Vec::new();
            authors.push(commit.author.clone());
            let f = FileHistory {
                path: path.clone(),
                commits,
                authors,
                first_commit: date,
                last_commit: date,
                total_changes: 1,
            };
            proof {
                let nf = fresh_file(path@, commit.id@, commit.author@, date as int);
                assert(f@.commits =~= nf.commits);
                assert(f@.authors =~= nf.authors);
            }
            fs.push(f);
            proof {
                assert(file_views(fs@) =~= old_views.push(
                    fresh_file(path@, commit.id@, commit.author@, date as int),
                ));
            }
        },
    }
}

/// Folds one commit into the file histories: each changed path, in order,
/// gets the commit appended.
fn touch_commit_files(fs: &mut Vec<FileHistory>, commit: &CommitInfo)
    requires
        files_wf(file_views(old(fs)@)),
    ensures
        files_wf(file_views(final(fs)@)),
        file_views(final(fs)@) == touch_files(
            file_views(old(fs)@),
            strs(commit.files_changed@),
            commit.id@,
            commit.author@,
            commit.authored_date as int,
        ),
        sum_changes(file_views(final(fs)@)) == sum_changes(file_views(old(fs)@))
            + commit.files_changed.len(),
{
    let ghost start = file_views(fs@);
    let ghost paths = strs(commit.files_changed@);
    let mut j: usize = 0;
    assert(paths.subrange(0, 0) =~= Seq::<Seq<char>>::empty());
    while j < commit.files_changed.len()
        invariant
            0 <= j <= commit.files_changed.len(),
            paths == strs(commit.files_changed@),
            files_wf(file_views(fs@)),
            file_views(fs@) == touch_files(
                start,
                paths.subrange(0, j as int),
                commit.id@,
                commit.author@,
                commit.authored_date as int,
            ),
            sum_changes(file_views(fs@)) == sum_changes(start) + j,
        decreases commit.files_changed.len() - j,
    {
        let ghost before = file_views(fs@);
        touch_file(fs, &commit.files_changed[j], commit);
        proof {
            lemma_touch_one(before, paths[j as int], commit.id@, commit.author@, commit.authored_date as int);
            lemma_touch_files_prefix(start, paths, j as int, commit.id@, commit.author@, commit.authored_date as int);
        }
        j += 1;
    }
    assert(paths.subrange(0, j as int) =~= paths);
}

/// What one author, keyed by name and email, has done.
#[derive(Debug)]
pub struct AuthorStats {
    pub name: String,
    pub email: String,
    pub commits: usize,
    pub files_touched: Vec<String>,
    pub first_commit: i64,
    pub last_commit: i64,
    pub lines_added: usize,
    pub lines_removed: usize,
}

pub struct AuthorView {
    pub name: Seq<char>,
    pub email: Seq<char>,
    pub commits: nat,
    pub files_touched: Seq<Seq<char>>,
    pub first_commit: int,
    pub last_commit: int,
    pub lines_added: nat,
    pub lines_removed: nat,
}

impl View for AuthorStats {
    type V = AuthorView;

    open spec fn view(&self) -> AuthorView {
        AuthorView {
            name: self.name@,
            email: self.email@,
            commits: self.commits as nat,
            files_touched: strs(self.files_touched@),
            first_commit: self.first_commit as int,
            last_commit: self.last_commit as int,
            lines_added: self.lines_added as nat,
            lines_removed: self.lines_removed as nat,
        }
    }
}

pub open spec fn author_views(v: Seq<AuthorStats>) -> Seq<AuthorView> {
    v.map_values(|a: AuthorStats| a@)
}

/// `s` extended by each of `xs` that it does not hold yet, in order.
pub open spec fn add_all(s: Seq<Seq<char>>, xs: Seq<Seq<char>>) -> Seq<Seq<char>>
    decreases xs.len(),
{
    if xs.len() == 0 {
        s
    } else {
        add_unique(add_all(s, xs.drop_last()), xs.last())
    }
}

pub open spec fn sat_add(a: nat, b: nat) -> nat {
    if a + b <= usize::MAX { a + b } else { usize::MAX as nat }
}

/// An author's record after folding one more of their commits.
pub open spec fn author_touched(a: AuthorView, c: CommitInfo) -> AuthorView {
    AuthorView {
        name: a.name,
        email: a.email,
        commits: a.commits + 1,
        files_touched: add_all(a.files_touched, strs(c.files_changed@)),
        first_commit: min_int(a.first_commit, c.authored_date as int),
        last_commit: max_int(a.last_commit, c.authored_date as int),
        lines_added: sat_add(a.lines_added, c.insertions as nat),
        lines_removed: sat_add(a.lines_removed, c.deletions as nat),
    }
}

/// The record of an author whose first folded commit is `c`.
pub open spec fn fresh_author(c: CommitInfo) -> AuthorView {
    author_touched(
        AuthorView {
            name: c.author@,
            email: c.author_email@,
            commits: 0,
            files_touched: Seq::empty(),
            first_commit: c.authored_date as int,
            last_commit: c.authored_date as int,
            lines_added: 0,
            lines_removed: 0,
        },
        c,
    )
}

pub open spec fn has_author(v: Seq<AuthorView>, name: Seq<char>, email: Seq<char>) -> bool {
    exists|k: int| 0 <= k < v.len() && (#[trigger] v[k]).name == name && v[k].email == email
}

pub open spec fn author_index(v: Seq<AuthorView>, name: Seq<char>, email: Seq<char>) -> int {
    choose|k: int| 0 <= k < v.len() && (#[trigger] v[k]).name == name && v[k].email == email
}

/// The author records after folding commit `c`.
pub open spec fn upsert_author(v: Seq<AuthorView>, c: CommitInfo) -> Seq<AuthorView> {
    if has_author(v, c.author@, c.author_email@) {
        let k = author_index(v, c.author@, c.author_email@);
        v.update(k, author_touched(v[k], c))
    } else {
        v.push(fresh_author(c))
    }
}

/// Keys are unique, touched paths have no repeats, and no author has more
/// commits than the `n` folded so far.
pub open spec fn authors_wf(v: Seq<AuthorView>, n: nat) -> bool {
    &&& forall|i: int, j: int|
        0 <= i < j < v.len() ==> !((#[trigger] v[i]).name == (#[trigger] v[j]).name && v[i].email
            == v[j].email)
    &&& forall|i: int|
        0 <= i < v.len() ==> {
            &&& (#[trigger] v[i]).files_touched.no_duplicates()
            &&& 1 <= v[i].commits <= n
        }
}

proof fn lemma_add_unique_no_dup(s: Seq<Seq<char>>, x: Seq<char>)
    requires
        s.no_duplicates(),
    ensures
        add_unique(s, x).no_duplicates(),
        add_unique(s, x).contains(x),
{
    if !s.contains(x) {
        let t = s.push(x);
        assert(t[s.len() as int] == x);
        assert forall|a: int, b: int| 0 <= a < b < t.len() implies t[a] != t[b] by {
            if b == t.len() - 1 {
                assert(s[a] == t[a]);
            }
        }
    }
}

proof fn lemma_add_all_prefix(s: Seq<Seq<char>>, xs: Seq<Seq<char>>, j: int)
    requires
        0 <= j < xs.len(),
    ensures
        add_all(s, xs.subrange(0, j + 1)) == add_unique(add_all(s, xs.subrange(0, j)), xs[j]),
{
    assert(xs.subrange(0, j + 1).drop_last() =~= xs.subrange(0, j));
}

/// Adds each of `xs` that `v` does not hold yet, in order.
fn add_all_strings(v: &mut Vec<String>, xs: &Vec<String>)
    requires
        strs(old(v)@).no_duplicates(),
    ensures
        strs(final(v)@) == add_all(strs(old(v)@), strs(xs@)),
        strs(final(v)@).no_duplicates(),
{
    let ghost start = strs(v@);
    let ghost xv = strs(xs@);
    let mut j: usize = 0;
    assert(xv.subrange(0, 0) =~= Seq::<Seq<char>>::empty());
    while j < xs.len()
        invariant
            0 <= j <= xs.len(),
            xv == strs(xs@),
            strs(v@) == add_all(start, xv.subrange(0, j as int)),
            strs(v@).no_duplicates(),
        decreases xs.len() - j,
    {
        let ghost before = strs(v@);
        if !contains_string(v, &xs[j]) {
            v.push(xs[j].clone());
            assert(strs(v@) =~= before.push(xv[j as int]));
        }
        proof {
            lemma_add_unique_no_dup(before, xv[j as int]);
            lemma_add_all_prefix(start, xv, j as int);
        }
        j += 1;
    }
    assert(xv.subrange(0, j as int) =~= xv);
}

fn find_author(v: &Vec<AuthorStats>, name: &String, email: &String) -> (r: Option<usize>)
    ensures
        match r {
            Some(k) => k < v.len() && v@[k as int].name@ == name@ && v@[k as int].email@ == email@,
            None => !has_author(author_views(v@), name@, email@),
        },
{
    let mut i: usize = 0;
    while i < v.len()
        invariant
            0 <= i <= v.len(),
            forall|j: int| 0 <= j < i ==> !(v@[j].name@ == name@ && v@[j].email@ == email@),
        decreases v.len() - i,
    {
        if v[i].name == *name && v[i].email == *email {
            return Some(i);
        }
        i += 1;
    }
    proof {
        if has_author(author_views(v@), name@, email@) {
            let k = author_index(author_views(v@), name@, email@);
            assert(v@[k].name@ == name@);
        }
    }
    None
}

fn bump_author(a: &mut AuthorStats, c: &CommitInfo)
    requires
        old(a).commits < usize::MAX,
        strs(old(a).files_touched@).no_duplicates(),
    ensures
        final(a)@ == author_touched(old(a)@, *c),
        strs(final(a).files_touched@).no_duplicates(),
{
    a.commits = a.commits + 1;
    a.lines_added = a.lines_added.saturating_add(c.insertions);
    a.lines_removed = a.lines_removed.saturating_add(c.deletions);
    if c.authored_date < a.first_commit {
        a.first_commit = c.authored_date;
    }
    if c.authored_date > a.last_commit {
        a.last_commit = c.authored_date;
    }
    add_all_strings(&mut a.files_touched, &c.files_changed);
}

/// Folds one commit into the author records.
fn update_author(v: &mut Vec<AuthorStats>, c: &CommitInfo, n: usize)
    requires
        authors_wf(author_views(old(v)@), n as nat),
        n < usize::MAX,
    ensures
        author_views(final(v)@) == upsert_author(author_views(old(v)@), *c),
        authors_wf(author_views(final(v)@), (n + 1) as nat),
{
    let ghost old_views = author_views(v@);
    match find_author(v, &c.author, &c.author_email) {
        Some(k) => {
            proof {
                assert(old_views[k as int].name == c.author@);
                assert(has_author(old_views, c.author@, c.author_email@));
                let pk = author_index(old_views, c.author@, c.author_email@);
                assert(pk == k as int);
            }
            let mut a = AuthorStats {
                name: String::new(),
                email: String::new(),
                commits: 0,
                files_touched: Vec::new(),
                first_commit: 0,
                last_commit: 0,
                lines_added: 0,
                lines_removed: 0,
            };
            v.set_and_swap(k, &mut a);
            assert(a@ == old_views[k as int]);
            bump_author(&mut a, c);
            v.set(k, a);
            proof {
                let r = old_views.update(k as int, author_touched(old_views[k as int], *c));
                assert(author_views(v@) =~= r);
                assert forall|i: int, j: int|
                    0 <= i < j < r.len() implies !((#[trigger] r[i]).name == (#[trigger] r[j]).name
                        && r[i].email == r[j].email) by {
                    assert(r[i].name == old_views[i].name && r[j].name == old_views[j].name);
                }
            }
        },
        None => {
            let mut a = AuthorStats {
                name: c.author.clone(),
                email: c.author_email.clone(),
                commits: 0,
                files_touched: Vec::new(),
                first_commit: c.authored_date,
                last_commit: c.authored_date,
                lines_added: 0,
                lines_removed: 0,
            };
            assert(strs(a.files_touched@) =~= Seq::<Seq<char>>::empty());
            bump_author(&mut a, c);
            v.push(a);
            proof {
                let r = old_views.push(fresh_author(*c));
                assert(author_views(v@) =~= r);
                assert forall|i: int, j: int|
                    0 <= i < j < r.len() implies !((#[trigger] r[i]).name == (#[trigger] r[j]).name
                        && r[i].email == r[j].email) by {
                    if j == old_views.len() {
                        assert(!(old_views[i].name == c.author@ && old_views[i].email == c.author_email@));
                    }
                }
            }
        },
    }
}

/// Where the repository's remote is hosted.
#[derive(Debug, Clone, Copy, PartialEq, Eq, Structural)]
pub enum RepositoryType {
    GitHub,
    GitLab,
    Bitbucket,
    Other,
    Local,
}

/// Signals about the repository's tests.
#[derive(Debug)]
pub struct TestAnalysis {
    pub total_test_files: usize,
    pub test_directories: Vec<String>,
    pub test_frameworks: Vec<String>,
    pub has_regression_tests: bool,
    pub test_patterns_found: Vec<String>,
    pub test_coverage_indicators: Vec<String>,
}

/// The aggregate of a whole scan. `file_history` and `author_stats` hold one
/// record per path and per (name, email), in order of first appearance.
#[derive(Debug)]
pub struct RepositoryStats {
    pub path: String,
    pub total_commits: usize,
    pub total_files: usize,
    pub total_authors: usize,
    pub first_commit: i64,
    pub last_commit: i64,
    pub branches: Vec<String>,
    pub commit_history: Vec<CommitInfo>,
    pub file_history: Vec<FileHistory>,
    pub author_stats: Vec<AuthorStats>,
    pub single_author_files: Vec<String>,
    pub stale_files: Vec<String>,
    pub high_churn_files: Vec<String>,
    pub remote_url: Option<String>,
    pub repository_type: RepositoryType,
    pub test_analysis: TestAnalysis,
}

/// Total number of changed-file entries over a commit sequence.
pub open spec fn sum_touches(cs: Seq<CommitInfo>) -> nat
    decreases cs.len(),
{
    if cs.len() == 0 {
        0
    } else {
        sum_touches(cs.drop_last()) + cs.last().files_changed@.len()
    }
}

impl RepositoryStats {
    pub open spec fn files(&self) -> Seq<FileView> {
        file_views(self.file_history@)
    }

    pub open spec fn authors(&self) -> Seq<AuthorView> {
        author_views(self.author_stats@)
    }

    /// The aggregate's invariant: the maps are well formed, counters agree
    /// with the commit list, and every changed-file entry of every commit is
    /// counted once in exactly one file history.
    pub open spec fn wf(&self) -> bool {
        &&& files_wf(self.files())
        &&& authors_wf(self.authors(), self.commit_history.len() as nat)
        &&& self.total_commits == self.commit_history.len()
        &&& sum_changes(self.files()) == sum_touches(self.commit_history@)
        &&& sum_commits(self.authors()) == self.commit_history.len()
    }

    /// An empty aggregate for the repository at `path`. The global date
    /// bounds start at the largest (first) and smallest (last) timestamps,
    /// so that after folding they are the earliest and latest commit dates.
    pub fn new(path: String) -> (r: Self)
        ensures
            r.wf(),
            r.path == path,
            r.commit_history.len() == 0,
            r.file_history.len() == 0,
            r.author_stats.len() == 0,
            r.branches.len() == 0,
            r.single_author_files.len() == 0,
            r.stale_files.len() == 0,
            r.high_churn_files.len() == 0,
            r.first_commit == i64::MAX,
            r.last_commit == i64::MIN,
            r.total_commits == 0,
            r.total_files == 0,
            r.total_authors == 0,
            r.remote_url.is_none(),
            r.repository_type == RepositoryType::Local,
    {
        let r = RepositoryStats {
            path,
            total_commits: 0,
            total_files: 0,
            total_authors: 0,
            first_commit: i64::MAX,
            last_commit: i64::MIN,
            branches: Vec::new(),
            commit_history: Vec::new(),
            file_history: Vec::new(),
            author_stats: Vec::new(),
            single_author_files: Vec::new(),
            stale_files: Vec::new(),
            high_churn_files: Vec::new(),
            remote_url: None,
            repository_type: RepositoryType::Local,
            test_analysis: TestAnalysis {
                total_test_files: 0,
                test_directories: Vec::new(),
                test_frameworks: Vec::new(),
                has_regression_tests: false,
                test_patterns_found: Vec::new(),
                test_coverage_indicators: Vec::new(),
            },
        };
        assert(r.files() =~= Seq::<FileView>::empty());
        assert(r.authors() =~= Seq::<AuthorView>::empty());
        r
    }

    /// Folds one commit: widens the global date bounds, updates the
    /// author's record and the history of every changed path, and appends
    /// the commit. The derived lists are left as they were.
    pub fn fold_commit(&mut self, commit: CommitInfo)
        requires
            old(self).wf(),
            old(self).commit_history.len() < usize::MAX,
        ensures
            final(self).wf(),
            final(self).commit_history@ == old(self).commit_history@.push(commit),
            final(self).first_commit == min_int(
                old(self).first_commit as int,
                commit.authored_date as int,
            ),
            final(self).last_commit == max_int(
                old(self).last_commit as int,
                commit.authored_date as int,
            ),
            final(self).files() == touch_files(
                old(self).files(),
                strs(commit.files_changed@),
                commit.id@,
                commit.author@,
                commit.authored_date as int,
            ),
            final(self).authors() == upsert_author(old(self).authors(), commit),
            sum_changes(final(self).files()) == sum_touches(final(self).commit_history@),
            sum_changes(final(self).files()) == sum_changes(old(self).files())
                + commit.files_changed.len(),
            final(self).path == old(self).path,
            final(self).branches == old(self).branches,
            final(self).single_author_files == old(self).single_author_files,
            final(self).stale_files == old(self).stale_files,
            final(self).high_churn_files == old(self).high_churn_files,
            final(self).total_files == old(self).total_files,
            final(self).total_authors == old(self).total_authors,
            final(self).remote_url == old(self).remote_url,
            final(self).repository_type == old(self).repository_type,
    {
        if commit.authored_date < self.first_commit {
            self.first_commit = commit.authored_date;
        }
        if commit.authored_date > self.last_commit {
            self.last_commit = commit.authored_date;
        }
        let n = self.commit_history.len();
        proof {
            lemma_upsert_author_sum(self.authors(), commit);
        }
        update_author(&mut self.author_stats, &commit, n);
        touch_commit_files(&mut self.file_history, &commit);
        let ghost before = self.commit_history@;
        self.commit_history.push(commit);
        assert(self.commit_history@.drop_last() =~= before);
        self.total_commits = self.commit_history.len();
    }
}

/// Paths with exactly one author, in map order.
pub open spec fn single_author_paths(fs: Seq<FileView>) -> Seq<Seq<char>>
    decreases fs.len(),
{
    if fs.len() == 0 {
        Seq::empty()
    } else {
        let rest = single_author_paths(fs.drop_last());
        if fs.last().authors.len() == 1 { rest.push(fs.last().path) } else { rest }
    }
}

/// Paths last touched strictly before `cutoff`, in map order.
pub open spec fn stale_paths(fs: Seq<FileView>, cutoff: int) -> Seq<Seq<char>>
    decreases fs.len(),
{
    if fs.len() == 0 {
        Seq::empty()
    } else {
        let rest = stale_paths(fs.drop_last(), cutoff);
        if fs.last().last_commit < cutoff { rest.push(fs.last().path) } else { rest }
    }
}

/// The instant `days` days before `now`.
pub open spec fn stale_cutoff(now: int, days: nat) -> int {
    now - days * 86400
}

/// One tenth of `n`, rounded up: at least one whenever `n` is positive.
pub open spec fn churn_count(n: nat) -> nat {
    (n + 9) / 10
}

pub open spec fn churn_keys(fs: Seq<FileView>) -> Seq<nat> {
    fs.map_values(|f: FileView| f.total_changes)
}

/// The top tenth of paths by `total_changes`, most changed first; equal
/// counts keep map order.
pub open spec fn high_churn_paths(fs: Seq<FileView>) -> Seq<Seq<char>> {
    top_ranked(churn_keys(fs), churn_count(fs.len())).map_values(|i: int| fs[i].path)
}

impl RepositoryStats {
    /// The derived lists and totals of `self` are those of the file
    /// histories `fs` at time `now` with the given staleness threshold.
    pub open spec fn derived_from(&self, fs: Seq<FileView>, now: int, stale_days: nat) -> bool {
        &&& strs(self.single_author_files@) == single_author_paths(fs)
        &&& strs(self.stale_files@) == stale_paths(fs, stale_cutoff(now, stale_days))
        &&& strs(self.high_churn_files@) == high_churn_paths(fs)
        &&& self.total_files == fs.len()
        &&& self.total_authors == self.author_stats.len()
    }

    /// Recomputes the totals and the three derived lists from the current
    /// file histories, replacing whatever lists were there.
    pub fn calculate_derived_stats(&mut self, now: i64, stale_threshold_days: u64)
        requires
            old(self).wf(),
        ensures
            final(self).wf(),
            final(self).derived_from(old(self).files(), now as int, stale_threshold_days as nat),
            final(self).file_history == old(self).file_history,
            final(self).author_stats == old(self).author_stats,
            final(self).commit_history == old(self).commit_history,
            final(self).first_commit == old(self).first_commit,
            final(self).last_commit == old(self).last_commit,
            final(self).path == old(self).path,
            final(self).branches == old(self).branches,
            final(self).remote_url == old(self).remote_url,
            final(self).repository_type == old(self).repository_type,
            final(self).file_history.len() > 0 ==> final(self).high_churn_files.len() >= 1,
    {
        let ghost fs = self.files();
        let n = self.file_history.len();
        self.total_authors = self.author_stats.len();
        self.total_files = n;

        let mut single: Vec<String> = Vec::new();
        let mut stale: Vec<String> = Vec::new();
        let mut keys: Vec<usize> = Vec::new();
        let cutoff: i128 = now as i128 - stale_threshold_days as i128 * 86400;
        let mut i: usize = 0;
        while i < n
            invariant
                n == self.file_history.len(),
                fs == self.files(),
                0 <= i <= n,
                cutoff == stale_cutoff(now as int, stale_threshold_days as nat),
                strs(single@) == single_author_paths(fs.subrange(0, i as int)),
                strs(stale@) == stale_paths(fs.subrange(0, i as int), cutoff as int),
                keys.len() == i,
                forall|q: int| 0 <= q < i ==> keys@[q] as nat == #[trigger] fs[q].total_changes,
            decreases n - i,
        {
            let f = &self.file_history[i];
            let ghost pre = fs.subrange(0, i as int);
            let ghost cur = fs.subrange(0, i as int + 1);
            assert(cur.drop_last() =~= pre);
            assert(cur.last() == f@);
            if f.authors.len() == 1 {
                let ghost before = strs(single@);
                single.push(f.path.clone());
                assert(strs(single@) =~= before.push(f.path@));
            }
            if (f.last_commit as i128) < cutoff {
                let ghost before = strs(stale@);
                stale.push(f.path.clone());
                assert(strs(stale@) =~= before.push(f.path@));
            }
            keys.push(f.total_changes);
            i += 1;
        }
        assert(fs.subrange(0, n as int) =~= fs);

        let k: usize = if n % 10 == 0 { n / 10 } else { n / 10 + 1 };
        assert(k == churn_count(n as nat));
        assert(usize_keys(keys@) =~= churn_keys(fs));
        let top = top_indices(&keys, k);
        let mut churn: Vec<String> = Vec::new();
        let mut t: usize = 0;
        while t < top.len()
            invariant
                n == self.file_history.len(),
                fs == self.files(),
                top.len() == k,
                forall|q: int| 0 <= q < k ==> #[trigger] top@[q] < n,
                as_ints(top@) == top_ranked(churn_keys(fs), k as nat),
                0 <= t <= top.len(),
                strs(churn@) == as_ints(top@).subrange(0, t as int).map_values(|i: int| fs[i].path),
            decreases top.len() - t,
        {
            let idx = top[t];
            let ghost before = strs(churn@);
            churn.push(self.file_history[idx].path.clone());
            assert(as_ints(top@)[t as int] == idx as int);
            assert(as_ints(top@).subrange(0, t + 1) =~= as_ints(top@).subrange(0, t as int).push(
                idx as int,
            ));
            assert(fs[idx as int].path == self.file_history@[idx as int].path@);
            assert(strs(churn@) =~= before.push(fs[idx as int].path));
            assert(strs(churn@) =~= as_ints(top@).subrange(0, t + 1).map_values(|i: int| fs[i].path));
            t += 1;
        }
        assert(as_ints(top@).subrange(0, t as int) =~= as_ints(top@));
        self.single_author_files = single;
        self.stale_files = stale;
        self.high_churn_files = churn;
        proof {
            lemma_top_ranked_len(churn_keys(fs), k as nat);
        }
    }
}

impl RepositoryStats {
    /// Folds a batch of commits, in order, after their probes have all
    /// finished.
    pub fn fold_batch(&mut self, commits: Vec<CommitInfo>)
        requires
            old(self).wf(),
            old(self).commit_history.len() + commits.len() <= usize::MAX,
        ensures
            final(self).wf(),
            final(self).commit_history@ == old(self).commit_history@ + commits@,
            final(self).files() == fold_files(old(self).files(), commits@),
            final(self).authors() == fold_authors(old(self).authors(), commits@),
            final(self).first_commit == fold_first(old(self).first_commit as int, commits@),
            final(self).last_commit == fold_last(old(self).last_commit as int, commits@),
            final(self).total_files == old(self).total_files,
            final(self).total_authors == old(self).total_authors,
            final(self).path == old(self).path,
            final(self).branches == old(self).branches,
            final(self).single_author_files == old(self).single_author_files,
            final(self).stale_files == old(self).stale_files,
            final(self).high_churn_files == old(self).high_churn_files,
            final(self).remote_url == old(self).remote_url,
            final(self).repository_type == old(self).repository_type,
    {
        let ghost start = self.commit_history@;
        let ghost all = commits@;
        let mut rest = commits;
        let mut j: usize = 0;
        let n = rest.len();
        while rest.len() > 0
            invariant
                self.wf(),
                all.len() == n,
                0 <= j <= n,
                rest@ == all.subrange(j as int, n as int),
                self.commit_history@ == start + all.subrange(0, j as int),
                self.files() == fold_files(old(self).files(), all.subrange(0, j as int)),
                self.authors() == fold_authors(old(self).authors(), all.subrange(0, j as int)),
                self.first_commit == fold_first(old(self).first_commit as int, all.subrange(0, j as int)),
                self.last_commit == fold_last(old(self).last_commit as int, all.subrange(0, j as int)),
                self.total_files == old(self).total_files,
                self.total_authors == old(self).total_authors,
                start.len() + n <= usize::MAX,
                self.path == old(self).path,
                self.branches == old(self).branches,
                self.single_author_files == old(self).single_author_files,
                self.stale_files == old(self).stale_files,
                self.high_churn_files == old(self).high_churn_files,
                self.remote_url == old(self).remote_url,
                self.repository_type == old(self).repository_type,
            decreases rest.len(),
        {
            let c = rest.remove(0);
            assert(c == all[j as int]);
            self.fold_commit(c);
            assert(all.subrange(0, j as int + 1) =~= all.subrange(0, j as int).push(all[j as int]));
            assert(all.subrange(0, j as int + 1).drop_last() =~= all.subrange(0, j as int));
            assert(rest@ =~= all.subrange(j as int + 1, n as int));
            j += 1;
        }
        assert(all.subrange(0, n as int) =~= all);
    }
}

/// The file histories after folding each of `cs`, in order.
pub open spec fn fold_files(fs: Seq<FileView>, cs: Seq<CommitInfo>) -> Seq<FileView>
    decreases cs.len(),
{
    if cs.len() == 0 {
        fs
    } else {
        let c = cs.last();
        touch_files(
            fold_files(fs, cs.drop_last()),
            strs(c.files_changed@),
            c.id@,
            c.author@,
            c.authored_date as int,
        )
    }
}

/// The author records after folding each of `cs`, in order.
pub open spec fn fold_authors(v: Seq<AuthorView>, cs: Seq<CommitInfo>) -> Seq<AuthorView>
    decreases cs.len(),
{
    if cs.len() == 0 {
        v
    } else {
        upsert_author(fold_authors(v, cs.drop_last()), cs.last())
    }
}

/// The earlier of `d` and every authored date of `cs`.
pub open spec fn fold_first(d: int, cs: Seq<CommitInfo>) -> int
    decreases cs.len(),
{
    if cs.len() == 0 {
        d
    } else {
        min_int(fold_first(d, cs.drop_last()), cs.last().authored_date as int)
    }
}

/// The later of `d` and every authored date of `cs`.
pub open spec fn fold_last(d: int, cs: Seq<CommitInfo>) -> int
    decreases cs.len(),
{
    if cs.len() == 0 {
        d
    } else {
        max_int(fold_last(d, cs.drop_last()), cs.last().authored_date as int)
    }
}

/// Sum of the commit counts of all author records.
pub open spec fn sum_commits(v: Seq<AuthorView>) -> nat
    decreases v.len(),
{
    if v.len() == 0 {
        0
    } else {
        sum_commits(v.drop_last()) + v.last().commits
    }
}

proof fn lemma_sum_commits_update(v: Seq<AuthorView>, k: int, a: AuthorView)
    requires
        0 <= k < v.len(),
    ensures
        sum_commits(v.update(k, a)) + v[k].commits == sum_commits(v) + a.commits,
    decreases v.len(),
{
    let u = v.update(k, a);
    if k == v.len() - 1 {
        assert(u.drop_last() =~= v.drop_last());
    } else {
        assert(u.drop_last() =~= v.drop_last().update(k, a));
        lemma_sum_commits_update(v.drop_last(), k, a);
    }
}

/// Folding one commit adds exactly one to the authors' commit counts.
proof fn lemma_upsert_author_sum(v: Seq<AuthorView>, c: CommitInfo)
    ensures
        sum_commits(upsert_author(v, c)) == sum_commits(v) + 1,
{
    if has_author(v, c.author@, c.author_email@) {
        let k = author_index(v, c.author@, c.author_email@);
        lemma_sum_commits_update(v, k, author_touched(v[k], c));
    } else {
        assert(v.push(fresh_author(c)).drop_last() =~= v);
    }
}

proof fn lemma_touch_files(
    fs: Seq<FileView>,
    paths: Seq<Seq<char>>,
    id: Seq<char>,
    author: Seq<char>,
    date: int,
)
    requires
        files_wf(fs),
    ensures
        files_wf(touch_files(fs, paths, id, author, date)),
        sum_changes(touch_files(fs, paths, id, author, date)) == sum_changes(fs) + paths.len(),
    decreases paths.len(),
{
    if paths.len() > 0 {
        lemma_touch_files(fs, paths.drop_last(), id, author, date);
        lemma_touch_one(touch_files(fs, paths.drop_last(), id, author, date), paths.last(), id, author, date);
    }
}

/// Folding any sequence of commits into well-formed file histories keeps
/// them well formed and adds to the sum of their `total_changes` exactly the
/// number of changed-file entries of those commits.
pub proof fn lemma_fold_files_counts(fs: Seq<FileView>, cs: Seq<CommitInfo>)
    requires
        files_wf(fs),
    ensures
        files_wf(fold_files(fs, cs)),
        sum_changes(fold_files(fs, cs)) == sum_changes(fs) + sum_touches(cs),
    decreases cs.len(),
{
    if cs.len() > 0 {
        let c = cs.last();
        lemma_fold_files_counts(fs, cs.drop_last());
        lemma_touch_files(
            fold_files(fs, cs.drop_last()),
            strs(c.files_changed@),
            c.id@,
            c.author@,
            c.authored_date as int,
        );
    }
}

/// Folding any sequence of commits adds exactly one to the authors' commit
/// counts per commit.
pub proof fn lemma_fold_authors_counts(v: Seq<AuthorView>, cs: Seq<CommitInfo>)
    ensures
        sum_commits(fold_authors(v, cs)) == sum_commits(v) + cs.len(),
    decreases cs.len(),
{
    if cs.len() > 0 {
        lemma_fold_authors_counts(v, cs.drop_last());
        lemma_upsert_author_sum(fold_authors(v, cs.drop_last()), cs.last());
    }
}

/// The host a remote URL names, judged by its lowercased text: GitLab,
/// then GitHub, then Bitbucket; a repository without a remote is local.
pub open spec fn repository_type_of(url: Option<Seq<char>>) -> RepositoryType {
    match url {
        None => RepositoryType::Local,
        Some(u) => host_type_of(lower_of(u)),
    }
}

/// The host a lowercased remote URL names.
pub open spec fn host_type_of(l: Seq<char>) -> RepositoryType {
    if occurs_in(l, "gitlab"@) {
        RepositoryType::GitLab
    } else if occurs_in(l, "github"@) {
        RepositoryType::GitHub
    } else if occurs_in(l, "bitbucket"@) {
        RepositoryType::Bitbucket
    } else {
        RepositoryType::Other
    }
}

impl RepositoryStats {
    /// Where the remote is hosted, from its URL.
    pub fn detect_repository_type(remote_url: &Option<String>) -> (r: RepositoryType)
        ensures
            r == repository_type_of(crate::patterns::opt_view(*remote_url)),
    {
        match remote_url {
            None => RepositoryType::Local,
            Some(url) => {
                let lower = lowercase(url.as_str());
                RepositoryStats::host_type(lower.as_str())
            },
        }
    }

    /// Where a remote is hosted, from its already lowercased URL: GitLab,
    /// then GitHub, then Bitbucket, else another host.
    pub fn host_type(lower_url: &str) -> (r: RepositoryType)
        ensures
            r == host_type_of(lower_url@),
    {
        if contains_str(lower_url, "gitlab") {
            RepositoryType::GitLab
        } else if contains_str(lower_url, "github") {
            RepositoryType::GitHub
        } else if contains_str(lower_url, "bitbucket") {
            RepositoryType::Bitbucket
        } else {
            RepositoryType::Other
        }
    }

    /// The authors with the most commits, most first; equal counts keep the
    /// order in which the authors first appeared. At most `limit` of them.
    pub fn get_top_contributors(&self, limit: usize) -> (r: Vec<&AuthorStats>)
        ensures
            r.len() == if limit < self.author_stats.len() { limit } else { self.author_stats.len() },
            forall|q: int|
                0 <= q < r.len() ==> *r@[q] == self.author_stats@[top_ranked(
                    usize_keys(author_commit_counts(self.author_stats@)),
                    r.len() as nat,
                )[q]],
    {
        let n = self.author_stats.len();
        let k = if limit < n { limit } else { n };
        let mut keys: Vec<usize> = Vec::new();
        let mut i: usize = 0;
        while i < n
            invariant
                n == self.author_stats.len(),
                0 <= i <= n,
                keys@ == author_commit_counts(self.author_stats@.subrange(0, i as int)),
            decreases n - i,
        {
            keys.push(self.author_stats[i].commits);
            assert(author_commit_counts(self.author_stats@.subrange(0, i as int + 1))
                =~= author_commit_counts(self.author_stats@.subrange(0, i as int)).push(
                self.author_stats@[i as int].commits,
            ));
            i += 1;
        }
        assert(self.author_stats@.subrange(0, n as int) =~= self.author_stats@);
        let top = top_indices(&keys, k);
        let mut r: Vec<&AuthorStats> = Vec::new();
        let mut t: usize = 0;
        while t < k
            invariant
                n == self.author_stats.len(),
                k <= n,
                top.len() == k,
                forall|q: int| 0 <= q < k ==> #[trigger] top@[q] < n,
                as_ints(top@) == top_ranked(usize_keys(keys@), k as nat),
                keys@ == author_commit_counts(self.author_stats@),
                0 <= t <= k,
                r.len() == t,
                forall|q: int| 0 <= q < t ==> *r@[q] == self.author_stats@[top@[q] as int],
            decreases k - t,
        {
            r.push(&self.author_stats[top[t]]);
            t += 1;
        }
        assert forall|q: int| 0 <= q < r.len() implies *r@[q] == self.author_stats@[top_ranked(
            usize_keys(author_commit_counts(self.author_stats@)),
            r.len() as nat,
        )[q]] by {
            assert(as_ints(top@)[q] == top@[q] as int);
        }
        r
    }
}

/// The commit count of each author record, in order.
pub open spec fn author_commit_counts(v: Seq<AuthorStats>) -> Seq<usize> {
    v.map_values(|a: AuthorStats| a.commits)
}

/// In every well-formed aggregate, and so in every one built by `new` and
/// `fold_commit`, the `total_changes` of all file histories add up to the
/// number of changed-file entries over all folded commits.
pub proof fn lemma_changes_match_touches(s: RepositoryStats)
    requires
        s.wf(),
    ensures
        sum_changes(s.files()) == sum_touches(s.commit_history@),
{
}

/// Deriving the lists a second time, over file histories that the first
/// derivation left unchanged, yields the same lists.
pub proof fn lemma_derive_idempotent(
    base: RepositoryStats,
    once: RepositoryStats,
    twice: RepositoryStats,
    now: int,
    stale_days: nat,
)
    requires
        once.derived_from(base.files(), now, stale_days),
        once.files() == base.files(),
        twice.derived_from(once.files(), now, stale_days),
    ensures
        strs(twice.single_author_files@) == strs(once.single_author_files@),
        strs(twice.stale_files@) == strs(once.stale_files@),
        strs(twice.high_churn_files@) == strs(once.high_churn_files@),
        twice.total_files == once.total_files,
{
}

/// Whenever there is at least one file history, the high-churn list holds
/// at least one path.
pub proof fn lemma_high_churn_nonempty(fs: Seq<FileView>)
    requires
        fs.len() > 0,
    ensures
        high_churn_paths(fs).len() >= 1,
{
    lemma_top_ranked_len(churn_keys(fs), churn_count(fs.len()));
}

} // verus!
