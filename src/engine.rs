//! Evaluation of a pattern profile against commit messages.
use vstd::prelude::*;
use vstd::string::StringExecFns;
use crate::history::{add_unique, contains_string, strs, CommitInfo, RepositoryStats};
use crate::patterns::{
    catalog_for, opt_view, pattern_info, profile_named, profile_patterns, reference_pattern_name,
    Category, PatternMatch, PatternProfile, Severity, VulnerabilityFinding, VulnerabilityPattern,
};
use crate::score::{
    finding_score, has_reference_match, lemma_risk_score_monotone, matches_weight, risk_score,
    risk_score_spec, MAX_SCORE,
};
use crate::text::str_eq;

verus! {

#[verifier::external_type_specification]
#[verifier::external_body]
pub struct ExRegex(fancy_regex::Regex);

/// Whether fancy_regex accepts `pattern` under its default options.
pub uninterp spec fn regex_compiles(pattern: Seq<char>) -> bool;

/// The successive non-overlapping matches of `pattern` in `text` as
/// fancy_regex reports them, each as the text of the whole match with the
/// text of group 1 when that group took part; an error when the matcher gives
/// up.
pub uninterp spec fn regex_all_captures(pattern: Seq<char>, text: Seq<char>) -> Result<
    Seq<(Seq<char>, Option<Seq<char>>)>,
    (),
>;

/// A compiled regular expression together with the text it was compiled
/// from. Only `compile_regex` makes one.
pub struct CompiledRegex {
    regex: fancy_regex::Regex,
    source: String,
}

impl CompiledRegex {
    /// The text this expression was compiled from.
    pub closed spec fn source(&self) -> Seq<char> {
        self.source@
    }
}

/// Relies on fancy_regex::Regex::new, which compiles `pattern` under the
/// default options or fails when it cannot.
#[verifier::external_body]
fn compile_regex(pattern: &str) -> (r: Option<CompiledRegex>)
    ensures
        r.is_some() == regex_compiles(pattern@),
        r matches Some(c) ==> c.source() == pattern@,
{
    match fancy_regex::Regex::new(pattern) {
        Ok(regex) => Some(CompiledRegex { regex, source: pattern.to_string() }),
        Err(_) => None,
    }
}

/// One match: the text of the whole match and of group 1.
pub type Hit = (Seq<char>, Option<Seq<char>>);

pub open spec fn hit_list_view(v: Seq<(String, Option<String>)>) -> Seq<Hit> {
    v.map_values(|h: (String, Option<String>)| (h.0@, opt_view(h.1)))
}

pub open spec fn matches_view(r: Result<Vec<(String, Option<String>)>, ()>) -> Result<Seq<Hit>, ()> {
    match r {
        Err(_) => Err(()),
        Ok(v) => Ok(hit_list_view(v@)),
    }
}

/// Relies on fancy_regex::Regex::captures_iter: the successive
/// non-overlapping matches in `text`, each as the text of the whole match
/// (group 0) and of group 1, or an error when the matcher gives up.
#[verifier::external_body]
fn all_matches(re: &CompiledRegex, text: &str) -> (r: Result<Vec<(String, Option<String>)>, ()>)
    ensures
        matches_view(r) == regex_all_captures(re.source(), text@),
{
    let mut out = Vec::new();
    for caps in re.regex.captures_iter(text) {
        let caps = caps.map_err(|_| ())?;
        out.push((
            caps.get(0).map(|m| m.as_str().to_string()).unwrap_or_default(),
            caps.get(1).map(|m| m.as_str().to_string()),
        ));
    }
    Ok(out)
}

/// Why an engine could not be built.
#[derive(Debug)]
pub enum EngineError {
    /// The named catalog entry does not compile.
    InvalidPattern(String),
}

pub struct MatchView {
    pub pattern_name: Seq<char>,
    pub matched_text: Seq<char>,
    pub severity: Severity,
    pub category: Category,
    pub file_path: Seq<char>,
    pub line_number: Option<usize>,
    pub context: Seq<char>,
    pub cve_references: Seq<Seq<char>>,
}

impl View for PatternMatch {
    type V = MatchView;

    open spec fn view(&self) -> MatchView {
        MatchView {
            pattern_name: self.pattern_name@,
            matched_text: self.matched_text@,
            severity: self.severity,
            category: self.category,
            file_path: self.file_path@,
            line_number: self.line_number,
            context: self.context@,
            cve_references: strs(self.cve_references@),
        }
    }
}

pub open spec fn match_views(ms: Seq<PatternMatch>) -> Seq<MatchView> {
    ms.map_values(|m: PatternMatch| m@)
}

/// What one entry finds in a message: every match, in order; nothing when
/// the matcher gives up.
pub open spec fn match_of(p: VulnerabilityPattern, msg: Seq<char>) -> Seq<Hit> {
    match regex_all_captures(p.pattern@, msg) {
        Ok(ms) => ms,
        Err(_) => Seq::empty(),
    }
}

/// What each entry of `ps` finds in `msg`, in order.
pub open spec fn hits_of(ps: Seq<VulnerabilityPattern>, msg: Seq<char>) -> Seq<Seq<Hit>> {
    ps.map_values(|p: VulnerabilityPattern| match_of(p, msg))
}

/// `refs` extended, in order, by `CVE-<id>` for the group-1 text `id` of
/// each match that has one, leaving out ids already listed.
pub open spec fn add_refs(refs: Seq<Seq<char>>, ms: Seq<Hit>) -> Seq<Seq<char>>
    decreases ms.len(),
{
    if ms.len() == 0 {
        refs
    } else {
        let prev = add_refs(refs, ms.drop_last());
        match ms.last().1 {
            Some(id) => add_unique(prev, "CVE-"@ + id),
            None => prev,
        }
    }
}

/// The matches made of `msg` when entry `i` of `ps` found the matches
/// `hits[i]`, and the external references collected on the way, in entry
/// order. An entry that found something gives one match, whose text is that
/// of its first match. The reference entry adds a reference for each of its
/// matches; each match carries the references collected up to and including
/// it.
pub open spec fn collect(ps: Seq<VulnerabilityPattern>, hits: Seq<Seq<Hit>>, msg: Seq<char>) -> (
    Seq<MatchView>,
    Seq<Seq<char>>,
)
    decreases ps.len(),
{
    if ps.len() == 0 {
        (Seq::empty(), Seq::empty())
    } else {
        let prev = collect(ps.drop_last(), hits, msg);
        let p = ps.last();
        let ms = hits[ps.len() - 1];
        if ms.len() == 0 {
            prev
        } else {
            let refs = if p.name@ == reference_pattern_name() {
                add_refs(prev.1, ms)
            } else {
                prev.1
            };
            (
                prev.0.push(
                    MatchView {
                        pattern_name: p.name@,
                        matched_text: ms[0].0,
                        severity: p.severity,
                        category: p.category,
                        file_path: "commit_message"@,
                        line_number: None,
                        context: msg,
                        cve_references: refs,
                    },
                ),
                refs,
            )
        }
    }
}

/// The matches the entries `ps` make of `msg`, and the references found.
pub open spec fn evaluate(ps: Seq<VulnerabilityPattern>, msg: Seq<char>) -> (
    Seq<MatchView>,
    Seq<Seq<char>>,
) {
    collect(ps, hits_of(ps, msg), msg)
}

/// `f` is the finding made of commit `c` when entry `i` of `ps` found
/// `hits[i]` in its message.
pub open spec fn is_finding_from(
    f: VulnerabilityFinding,
    ps: Seq<VulnerabilityPattern>,
    hits: Seq<Seq<Hit>>,
    c: CommitInfo,
) -> bool {
    let ev = collect(ps, hits, c.message@);
    &&& f.commit_id@ == c.id@
    &&& f.commit_message@ == c.message@
    &&& f.author@ == c.author@
    &&& f.date == c.authored_date
    &&& strs(f.files_changed@) == strs(c.files_changed@)
    &&& match_views(f.patterns_matched@) == ev.0
    &&& strs(f.cve_references@) == ev.1
    &&& f.risk_score == finding_score(f.patterns_matched@, c.files_changed.len() as nat)
}

pub open spec fn hit_views(v: Seq<Vec<(String, Option<String>)>>) -> Seq<Seq<Hit>> {
    v.map_values(|h: Vec<(String, Option<String>)>| hit_list_view(h@))
}

/// `f` is the finding that entries `ps` make of commit `c`.
pub open spec fn is_finding_for(
    f: VulnerabilityFinding,
    ps: Seq<VulnerabilityPattern>,
    c: CommitInfo,
) -> bool {
    is_finding_from(f, ps, hits_of(ps, c.message@), c)
}

/// Whether any entry of `ps` matches the message of `c`.
pub open spec fn has_finding(ps: Seq<VulnerabilityPattern>, c: CommitInfo) -> bool {
    evaluate(ps, c.message@).0.len() > 0
}

/// The positions, in order, of the commits that some entry of `ps` matches.
pub open spec fn finding_indices(ps: Seq<VulnerabilityPattern>, cs: Seq<CommitInfo>) -> Seq<int>
    decreases cs.len(),
{
    if cs.len() == 0 {
        Seq::empty()
    } else {
        let rest = finding_indices(ps, cs.drop_last());
        if has_finding(ps, cs.last()) { rest.push(cs.len() - 1) } else { rest }
    }
}

/// A commit whose message no loaded entry matches has no place among the
/// findings at all, while every commit that some entry matches has one.
pub proof fn lemma_findings_exactly_matched(ps: Seq<VulnerabilityPattern>, cs: Seq<CommitInfo>, i: int)
    requires
        0 <= i < cs.len(),
    ensures
        finding_indices(ps, cs).contains(i) <==> has_finding(ps, cs[i]),
    decreases cs.len(),
{
    let rest = finding_indices(ps, cs.drop_last());
    lemma_finding_indices_bound(ps, cs.drop_last());
    if i < cs.len() - 1 {
        lemma_findings_exactly_matched(ps, cs.drop_last(), i);
        assert(cs.drop_last()[i] == cs[i]);
        if has_finding(ps, cs.last()) {
            let r = rest.push(cs.len() - 1);
            if r.contains(i) {
                let q = choose|q: int| 0 <= q < r.len() && r[q] == i;
                if q < rest.len() {
                    assert(rest[q] == i);
                }
            }
            if rest.contains(i) {
                let q = choose|q: int| 0 <= q < rest.len() && rest[q] == i;
                assert(r[q] == i);
            }
        }
    } else {
        if has_finding(ps, cs.last()) {
            assert(rest.push(cs.len() - 1)[rest.len() as int] == i);
        } else if rest.contains(i) {
            let q = choose|q: int| 0 <= q < rest.len() && rest[q] == i;
            assert(rest[q] < cs.len() - 1);
        }
    }
}

proof fn lemma_finding_indices_bound(ps: Seq<VulnerabilityPattern>, cs: Seq<CommitInfo>)
    ensures
        forall|q: int|
            0 <= q < finding_indices(ps, cs).len() ==> 0 <= #[trigger] finding_indices(ps, cs)[q]
                < cs.len(),
    decreases cs.len(),
{
    if cs.len() > 0 {
        lemma_finding_indices_bound(ps, cs.drop_last());
        let rest = finding_indices(ps, cs.drop_last());
        let r = finding_indices(ps, cs);
        assert forall|q: int| 0 <= q < r.len() implies 0 <= #[trigger] r[q] < cs.len() by {
            if q < rest.len() {
                assert(r[q] == rest[q]);
            }
        }
    }
}

/// A weight summed with saturation scores as the exact sum does.
proof fn lemma_score_saturates(w: nat, files: nat, r: bool)
    requires
        w > u64::MAX,
    ensures
        risk_score_spec(u64::MAX as nat, files, r) == risk_score_spec(w, files, r),
{
    lemma_risk_score_monotone(u64::MAX as nat, w, files, files, r, r);
    if files > 0 {
        lemma_risk_score_monotone(10, u64::MAX as nat, 1, files, false, r);
        lemma_ten_scores_max();
    } else {
        assert(risk_score_spec(w, 0, r) == 0) by {
            lemma_zero_files(w, r);
        }
        lemma_zero_files(u64::MAX as nat, r);
    }
}

proof fn lemma_ten_scores_max()
    ensures
        risk_score_spec(10, 1, false) == MAX_SCORE,
{
    crate::score::lemma_floor_sqrt_at_least(1000, 10000 * 10 * 10 * 1);
}

proof fn lemma_zero_files(w: nat, r: bool)
    ensures
        risk_score_spec(w, 0, r) == 0,
{
    let k: nat = if r { 2 * w } else { w };
    assert(10000 * k * k * 0 == 0);
    crate::score::lemma_floor_sqrt_zero();
}

/// A profile of the catalog with every expression compiled once.
pub struct PatternEngine {
    regexes: Vec<CompiledRegex>,
    patterns: Vec<VulnerabilityPattern>,
}

/// Appends `CVE-<id>` for the group-1 text of each match that has one,
/// unless already listed.
fn append_refs(refs: &mut Vec<String>, ms: &Vec<(String, Option<String>)>)
    ensures
        strs(final(refs)@) == add_refs(strs(old(refs)@), hit_list_view(ms@)),
{
    let ghost start = strs(refs@);
    let ghost mv = hit_list_view(ms@);
    let mut j: usize = 0;
    assert(mv.subrange(0, 0) =~= Seq::<Hit>::empty());
    while j < ms.len()
        invariant
            0 <= j <= ms.len(),
            mv == hit_list_view(ms@),
            strs(refs@) == add_refs(start, mv.subrange(0, j as int)),
        decreases ms.len() - j,
    {
        proof {
            assert(mv.subrange(0, j as int + 1).drop_last() =~= mv.subrange(0, j as int));
            assert(mv.subrange(0, j as int + 1).last() == mv[j as int]);
        }
        match &ms[j].1 {
            Some(id) => {
                let mut cve = String::from_str("CVE-");
                cve.append(id.as_str());
                let ghost before = strs(refs@);
                if !contains_string(&refs, &cve) {
                    refs.push(cve);
                    assert(strs(refs@) =~= before.push("CVE-"@ + id@));
                }
            },
            None => {},
        }
        j += 1;
    }
    assert(mv.subrange(0, j as int) =~= mv);
}

/// The finding made of `commit` when entry `i` of `patterns` found
/// the matches `hits[i]` in its message (each the text of the whole match
/// and of group 1): none when nothing was found; otherwise one match per
/// entry that found something, in entry order, one reference for each
/// distinct group 1 of the reference entry's matches, and the score of those
/// matches over the commit's changed files.
pub fn finding_from_hits(
    patterns: &Vec<VulnerabilityPattern>,
    commit: &CommitInfo,
    hits: &Vec<Vec<(String, Option<String>)>>,
) -> (r: Option<VulnerabilityFinding>)
    requires
        hits.len() == patterns.len(),
    ensures
        r is None <==> collect(patterns@, hit_views(hits@), commit.message@).0.len() == 0,
        r matches Some(f) ==> is_finding_from(f, patterns@, hit_views(hits@), *commit),
{
    let ghost ps = patterns@;
    let ghost hv = hit_views(hits@);
    let ghost msg = commit.message@;
    let n = patterns.len();
    let mut matched: Vec<PatternMatch> = Vec::new();
    let mut refs: Vec<String> = Vec::new();
    let mut weight: u64 = 0;
    let mut has_ref: bool = false;
    let mut i: usize = 0;
    while i < n
        invariant
            n == patterns.len(),
            n == hits.len(),
            ps == patterns@,
            hv == hit_views(hits@),
            msg == commit.message@,
            0 <= i <= n,
            match_views(matched@) == collect(ps.subrange(0, i as int), hv, msg).0,
            strs(refs@) == collect(ps.subrange(0, i as int), hv, msg).1,
            weight as nat == if matches_weight(matched@) <= u64::MAX {
                matches_weight(matched@)
            } else {
                u64::MAX as nat
            },
            has_ref == has_reference_match(matched@),
        decreases n - i,
    {
        let pat = &patterns[i];
        let ghost pre = ps.subrange(0, i as int);
        let ghost cur = ps.subrange(0, i as int + 1);
        proof {
            assert(cur.drop_last() =~= pre);
            assert(cur.last() == *pat);
            assert(cur.len() - 1 == i);
        }
        let found = &hits[i];
        proof {
            assert(hv[i as int] == hit_list_view(found@));
        }
        if found.len() > 0 {
            {
                let is_ref = str_eq(pat.name.as_str(), "CVE Reference");
                if is_ref {
                    append_refs(&mut refs, found);
                }
                let snapshot = crate::extract::clone_strings(&refs);
                let m = PatternMatch {
                    pattern_name: pat.name.clone(),
                    matched_text: found[0].0.clone(),
                    severity: pat.severity,
                    category: pat.category,
                    file_path: "commit_message".to_string(),
                    line_number: None,
                    context: commit.message.clone(),
                    cve_references: snapshot,
                };
                let ghost before = matched@;
                let w = pat.severity.weight();
                matched.push(m);
                proof {
                    assert(match_views(matched@) =~= match_views(before).push(m@));
                    assert(matched@.drop_last() =~= before);
                    if has_reference_match(matched@) && !has_ref {
                        let q = choose|q: int|
                            0 <= q < matched@.len() && (#[trigger] matched@[q]).pattern_name@
                                == reference_pattern_name();
                        if q < before.len() {
                            assert(before[q] == matched@[q]);
                        }
                    }
                    if has_ref {
                        let q = choose|q: int|
                            0 <= q < before.len() && (#[trigger] before[q]).pattern_name@
                                == reference_pattern_name();
                        assert(matched@[q] == before[q]);
                    }
                    if is_ref {
                        assert(matched@[before.len() as int] == m);
                    }
                }
                weight = weight.saturating_add(w);
                has_ref = has_ref || is_ref;
            }
        }
        i += 1;
    }
    proof {
        assert(ps.subrange(0, n as int) =~= ps);
    }
    if matched.len() == 0 {
        return None;
    }
    let score = risk_score(weight, commit.files_changed.len(), has_ref);
    proof {
        if matches_weight(matched@) > u64::MAX {
            lemma_score_saturates(matches_weight(matched@), commit.files_changed.len() as nat, has_ref);
        }
    }
    let files = crate::extract::clone_strings(&commit.files_changed);
    Some(
        VulnerabilityFinding {
            commit_id: commit.id.clone(),
            commit_message: commit.message.clone(),
            author: commit.author.clone(),
            date: commit.authored_date,
            files_changed: files,
            patterns_matched: matched,
            risk_score: score,
            cve_references: refs,
        },
    )
}

impl PatternEngine {
    /// The loaded entries, in catalog order.
    pub closed spec fn entries(&self) -> Seq<VulnerabilityPattern> {
        self.patterns@
    }

    /// Each loaded entry was compiled from its own expression.
    pub closed spec fn wf(&self) -> bool {
        &&& self.regexes@.len() == self.patterns@.len()
        &&& forall|i: int|
            0 <= i < self.regexes@.len() ==> (#[trigger] self.regexes@[i]).source()
                == self.patterns@[i].pattern@
    }

    /// Loads the profile that `pattern_set` names (see
    /// `PatternProfile::from_name`) and compiles each of its expressions.
    /// Fails, naming the entry, at the first expression that does not
    /// compile.
    pub fn new(pattern_set: &str) -> (r: Result<Self, EngineError>)
        ensures
            match r {
                Ok(e) => {
                    &&& e.wf()
                    &&& e.entries().map_values(|p: VulnerabilityPattern| pattern_info(p))
                        == catalog_for(profile_named(pattern_set@))
                    &&& forall|i: int|
                        0 <= i < e.entries().len() ==> regex_compiles(
                            (#[trigger] e.entries()[i]).pattern@,
                        )
                },
                Err(EngineError::InvalidPattern(name)) => exists|i: int|
                    0 <= i < catalog_for(profile_named(pattern_set@)).len() && !regex_compiles(
                        (#[trigger] catalog_for(profile_named(pattern_set@))[i]).1,
                    ) && name@ == catalog_for(profile_named(pattern_set@))[i].0,
            },
    {
        let profile = PatternProfile::from_name(pattern_set);
        let mut rest = profile_patterns(profile);
        let ghost all = rest@;
        let ghost infos = catalog_for(profile);
        let n = rest.len();
        let mut regexes: Vec<CompiledRegex> = Vec::new();
        let mut patterns: Vec<VulnerabilityPattern> = Vec::new();
        let mut i: usize = 0;
        while i < n
            invariant
                profile == profile_named(pattern_set@),
                infos == catalog_for(profile),
                all.len() == n,
                all.map_values(|p: VulnerabilityPattern| pattern_info(p)) == infos,
                0 <= i <= n,
                rest@ == all.subrange(i as int, n as int),
                regexes@.len() == i,
                patterns@ == all.subrange(0, i as int),
                forall|q: int| 0 <= q < i ==> (#[trigger] regexes@[q]).source() == all[q].pattern@,
                forall|q: int| 0 <= q < i ==> regex_compiles((#[trigger] all[q]).pattern@),
            decreases n - i,
        {
            let p = rest.remove(0);
            assert(p == all[i as int]);
            assert(rest@ =~= all.subrange(i as int + 1, n as int));
            match compile_regex(p.pattern.as_str()) {
                Some(re) => {
                    regexes.push(re);
                    patterns.push(p);
                    assert(patterns@ =~= all.subrange(0, i as int + 1));
                },
                None => {
                    proof {
                        assert(all.map_values(|p: VulnerabilityPattern| pattern_info(p))[i as int]
                            == pattern_info(all[i as int]));
                        assert(infos[i as int] == pattern_info(all[i as int]));
                        assert(infos.len() == n);
                        assert(!regex_compiles(p.pattern@));
                        assert(catalog_for(profile_named(pattern_set@))[i as int].1 == p.pattern@);
                    }
                    return Err(EngineError::InvalidPattern(p.name));
                },
            }
            i += 1;
        }
        let e = PatternEngine { regexes, patterns };
        assert(e.entries() =~= all);
        Ok(e)
    }

    /// Evaluates every commit of the aggregate, in order, and keeps the
    /// findings: one per commit that some entry matches, none for the rest.
    pub fn scan_repository(&self, git_stats: &RepositoryStats) -> (r: Vec<VulnerabilityFinding>)
        requires
            self.wf(),
        ensures
            r.len() == finding_indices(self.entries(), git_stats.commit_history@).len(),
            forall|k: int|
                0 <= k < r.len() ==> is_finding_for(
                    #[trigger] r@[k],
                    self.entries(),
                    git_stats.commit_history@[finding_indices(
                        self.entries(),
                        git_stats.commit_history@,
                    )[k]],
                ),
    {
        let ghost ps = self.entries();
        let ghost cs = git_stats.commit_history@;
        let n = git_stats.commit_history.len();
        let mut r: Vec<VulnerabilityFinding> = Vec::new();
        let mut i: usize = 0;
        while i < n
            invariant
                self.wf(),
                ps == self.entries(),
                cs == git_stats.commit_history@,
                n == cs.len(),
                0 <= i <= n,
                r.len() == finding_indices(ps, cs.subrange(0, i as int)).len(),
                forall|q: int| 0 <= q < finding_indices(ps, cs.subrange(0, i as int)).len()
                    ==> 0 <= #[trigger] finding_indices(ps, cs.subrange(0, i as int))[q] < i,
                forall|k: int|
                    0 <= k < r.len() ==> is_finding_for(
                        #[trigger] r@[k],
                        ps,
                        cs[finding_indices(ps, cs.subrange(0, i as int))[k]],
                    ),
            decreases n - i,
        {
            let ghost pre = cs.subrange(0, i as int);
            let ghost cur = cs.subrange(0, i as int + 1);
            proof {
                assert(cur.drop_last() =~= pre);
                assert(cur.last() == cs[i as int]);
            }
            match self.analyze_commit(&git_stats.commit_history[i]) {
                Some(f) => {
                    r.push(f);
                },
                None => {},
            }
            i += 1;
        }
        proof {
            assert(cs.subrange(0, n as int) =~= cs);
        }
        r
    }

    /// Evaluates every loaded entry against the commit's message. A commit
    /// that no entry matches gives no finding; an entry whose matcher gives
    /// up counts as not matching. Otherwise the finding is the one
    /// `finding_from_hits` makes of what each entry found.
    pub fn analyze_commit(&self, commit: &CommitInfo) -> (r: Option<VulnerabilityFinding>)
        requires
            self.wf(),
        ensures
            r is None <==> !has_finding(self.entries(), *commit),
            r matches Some(f) ==> is_finding_for(f, self.entries(), *commit),
    {
        let ghost ps = self.entries();
        let ghost msg = commit.message@;
        let n = self.patterns.len();
        let mut hits: Vec<Vec<(String, Option<String>)>> = Vec::new();
        let mut i: usize = 0;
        while i < n
            invariant
                self.wf(),
                n == self.patterns.len(),
                ps == self.entries(),
                msg == commit.message@,
                0 <= i <= n,
                hits.len() == i,
                hit_views(hits@) == hits_of(ps.subrange(0, i as int), msg),
            decreases n - i,
        {
            let text = commit.message.as_str();
            let res = all_matches(&self.regexes[i], text);
            proof {
                assert(ps.len() == n);
                assert(text@ == msg);
                assert(self.regexes@[i as int].source() == ps[i as int].pattern@);
                assert(matches_view(res) == regex_all_captures(ps[i as int].pattern@, msg));
            }
            let hit = match res {
                Ok(found) => found,
                Err(_) => Vec::new(),
            };
            proof {
                assert(hit_list_view(hit@) =~= match_of(ps[i as int], msg));
            }
            let ghost before = hits@;
            hits.push(hit);
            proof {
                assert(hits@[i as int] == hit);
                assert(hit_views(hits@)[i as int] == match_of(ps[i as int], msg));
                let lhs = hit_views(hits@);
                let rhs = hits_of(ps.subrange(0, i as int + 1), msg);
                let old_views = hit_views(before);
                assert forall|q: int| 0 <= q < i implies lhs[q] == rhs[q] by {
                    assert(hits@[q] == before[q]);
                    assert(old_views[q] == hits_of(ps.subrange(0, i as int), msg)[q]);
                    assert(ps.subrange(0, i as int)[q] == ps.subrange(0, i as int + 1)[q]);
                }
                assert(lhs =~= rhs);
            }
            i += 1;
        }
        assert(ps.subrange(0, n as int) =~= ps);
        finding_from_hits(&self.patterns, commit, &hits)
    }
}

} // verus!
