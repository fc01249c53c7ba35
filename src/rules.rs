//! The ordered rule chain that decides which entries a backup keeps.
//!
//! Rules are consulted in order. The first rule that applies to an entry (its
//! kind restriction admits the entry and its test matches) decides; later
//! rules are not consulted. An entry to which no rule applies is included.
use vstd::prelude::*;
use crate::entry::{is_sep, is_separator, Decision, Entry, EntryKind};
use crate::text::{chars_equal, chars_of, slice_chars, string_of};

verus! {

/// The test and action that a rule carries.
pub enum RuleCheck {
    /// Applies beneath a version-control root; excludes the entry when the
    /// version-control system's ignore query says it is ignored.
    VcsIgnore,
    /// Applies to entries whose name has the given extension, compared case
    /// sensitively, and excludes them.
    BlockedExtension(String),
}

/// One named rule of the chain.
pub struct Rule {
    pub name: String,
    pub description: Option<String>,
    /// When set, the rule applies to entries of this kind only.
    pub only_for: Option<EntryKind>,
    pub check: RuleCheck,
}

/// How a source tree is walked: the rule chain, and whether symbolic links
/// are followed and empty directories dropped.
pub struct WalkConfig {
    pub rules: Vec<Rule>,
    pub follow_symlinks: bool,
    pub drop_empty_dirs: bool,
}

/// What evaluating the chain on an entry yields.
pub enum RuleOutcome {
    /// The chain has decided.
    Decided(Decision),
    /// The deciding rule needs the version-control ignore query for the
    /// entry; its answer decides, as `ignore_check_decision` gives it.
    NeedsIgnoreCheck,
}

/// The last segment of `p`: what follows its last separator.
pub open spec fn name_of(p: Seq<char>) -> Seq<char>
    decreases p.len(),
{
    if p.len() == 0 || is_sep(p.last()) {
        seq![]
    } else {
        name_of(p.drop_last()).push(p.last())
    }
}

/// Index of the last `.` of `n`, or -1 when it has none.
pub open spec fn last_dot(n: Seq<char>) -> int
    decreases n.len(),
{
    if n.len() == 0 {
        -1
    } else if n.last() == '.' {
        n.len() - 1
    } else {
        last_dot(n.drop_last())
    }
}

/// The extension of the file name `n`: what follows its last `.`, unless
/// that dot starts the name or the name is `..`.
pub open spec fn extension(n: Seq<char>) -> Option<Seq<char>> {
    if n == seq!['.', '.'] || last_dot(n) <= 0 {
        None
    } else {
        Some(n.skip(last_dot(n) + 1))
    }
}

/// The extension of the entry's own name.
pub open spec fn entry_extension(e: Entry) -> Option<Seq<char>> {
    extension(name_of(e.path@))
}

/// Whether `r`'s test matches `e`.
pub open spec fn rule_matches(r: Rule, e: Entry) -> bool {
    match r.check {
        RuleCheck::VcsIgnore => e.under_vcs,
        RuleCheck::BlockedExtension(ext) => entry_extension(e) == Some(ext@),
    }
}

/// Whether `r` applies to `e`: its kind restriction admits `e` and its test
/// matches.
pub open spec fn rule_applies(r: Rule, e: Entry) -> bool {
    (r.only_for is None || r.only_for == Some(e.kind)) && rule_matches(r, e)
}

/// The decision that follows the version-control ignore query.
pub open spec fn ignore_decision(ignored: bool) -> Decision {
    if ignored {
        Decision::Exclude
    } else {
        Decision::Include
    }
}

/// What `r` decides for `e`, where `ignored` is the answer of the
/// version-control ignore query for `e`.
pub open spec fn rule_action(r: Rule, e: Entry, ignored: bool) -> Decision {
    match r.check {
        RuleCheck::VcsIgnore => ignore_decision(ignored),
        RuleCheck::BlockedExtension(ext) => if entry_extension(e) == Some(ext@) {
            Decision::Exclude
        } else {
            Decision::Include
        },
    }
}

/// The chain's decision for `e`: the action of the first rule that applies,
/// or `Include` when none does.
pub open spec fn chain_decision(rules: Seq<Rule>, e: Entry, ignored: bool) -> Decision
    decreases rules.len(),
{
    if rules.len() == 0 {
        Decision::Include
    } else if rule_applies(rules[0], e) {
        rule_action(rules[0], e, ignored)
    } else {
        chain_decision(rules.skip(1), e, ignored)
    }
}

/// Whether the rule that decides for `e` is one that needs the ignore query.
pub open spec fn chain_asks(rules: Seq<Rule>, e: Entry) -> bool
    decreases rules.len(),
{
    if rules.len() == 0 {
        false
    } else if rule_applies(rules[0], e) {
        rules[0].check is VcsIgnore
    } else {
        chain_asks(rules.skip(1), e)
    }
}

/// The directory in which to run the ignore query for `e`: the entry itself
/// when it is a directory, else the part of its path up to and including the
/// last separator; none when the path has no separator.
pub open spec fn query_dir(e: Entry) -> Option<Seq<char>> {
    let p = e.path@;
    let k = p.len() - name_of(p).len();
    if e.kind == EntryKind::Directory {
        Some(p)
    } else if k <= 0 {
        None
    } else {
        Some(p.take(k))
    }
}

/// The first rule that applies decides, whatever comes after it.
pub proof fn lemma_first_applicable_decides(
    before: Seq<Rule>,
    r: Rule,
    after: Seq<Rule>,
    e: Entry,
    ignored: bool,
)
    requires
        forall|j: int| 0 <= j < before.len() ==> !rule_applies(#[trigger] before[j], e),
        rule_applies(r, e),
    ensures
        chain_decision(before + seq![r] + after, e, ignored) == rule_action(r, e, ignored),
        chain_asks(before + seq![r] + after, e) == (r.check is VcsIgnore),
    decreases before.len(),
{
    let all = before + seq![r] + after;
    if before.len() == 0 {
        assert(all[0] == r);
    } else {
        assert(all[0] == before[0]);
        assert(all.skip(1) =~= before.skip(1) + seq![r] + after);
        assert forall|j: int| 0 <= j < before.skip(1).len() implies !rule_applies(
            #[trigger] before.skip(1)[j],
            e,
        ) by {
            assert(before.skip(1)[j] == before[j + 1]);
        }
        lemma_first_applicable_decides(before.skip(1), r, after, e, ignored);
    }
}

/// When the ignore rule is the first rule that applies to `e` and the query
/// says `e` is ignored, the chain excludes `e`, whatever the rules after it
/// would have said.
pub proof fn lemma_ignored_entry_excluded(before: Seq<Rule>, r: Rule, after: Seq<Rule>, e: Entry)
    requires
        forall|j: int| 0 <= j < before.len() ==> !rule_applies(#[trigger] before[j], e),
        r.check is VcsIgnore,
        rule_applies(r, e),
    ensures
        chain_decision(before + seq![r] + after, e, true) == Decision::Exclude,
{
    lemma_first_applicable_decides(before, r, after, e, true);
}

/// A file whose extension a leading blocking rule names is excluded,
/// whatever the rules after it and the ignore query say.
pub proof fn lemma_blocked_extension_excluded(r: Rule, after: Seq<Rule>, e: Entry, ignored: bool)
    requires
        r.check matches RuleCheck::BlockedExtension(ext) && entry_extension(e) == Some(ext@),
        r.only_for is None || r.only_for == Some(e.kind),
    ensures
        chain_decision(seq![r] + after, e, ignored) == Decision::Exclude,
{
    assert(Seq::<Rule>::empty() + seq![r] + after =~= seq![r] + after);
    lemma_first_applicable_decides(Seq::<Rule>::empty(), r, after, e, ignored);
}

/// A blocking rule passes an entry with any other extension, or none, on to
/// the rules after it.
pub proof fn lemma_other_extension_passes(r: Rule, after: Seq<Rule>, e: Entry, ignored: bool)
    requires
        r.check matches RuleCheck::BlockedExtension(ext) && entry_extension(e) != Some(ext@),
    ensures
        chain_decision(seq![r] + after, e, ignored) == chain_decision(after, e, ignored),
{
    assert((seq![r] + after)[0] == r);
    assert((seq![r] + after).skip(1) =~= after);
}

/// Index where the last segment of `p` begins.
pub(crate) fn name_start_of(p: &Vec<char>) -> (r: usize)
    ensures
        r <= p.len(),
        p@.skip(r as int) == name_of(p@),
{
    let mut j: usize = p.len();
    assert(p@.skip(j as int) =~= Seq::<char>::empty());
    assert(p@.take(j as int) =~= p@);
    while j > 0 && !is_separator(p[j - 1])
        invariant
            j <= p.len(),
            name_of(p@) == name_of(p@.take(j as int)) + p@.skip(j as int),
        decreases j,
    {
        let ghost t = p@.take(j as int);
        assert(t.drop_last() =~= p@.take(j - 1));
        assert(t.last() == p@[j - 1]);
        assert(p@.skip(j - 1) =~= seq![p@[j - 1]] + p@.skip(j as int));
        assert(name_of(t) == name_of(p@.take(j - 1)).push(p@[j - 1]));
        assert(name_of(p@.take(j - 1)).push(p@[j - 1]) + p@.skip(j as int) =~= name_of(
            p@.take(j - 1),
        ) + p@.skip(j - 1));
        j = j - 1;
    }
    proof {
        let t = p@.take(j as int);
        if j > 0 {
            assert(t.last() == p@[j - 1]);
        }
        assert(name_of(t) =~= Seq::<char>::empty());
        assert(name_of(p@) =~= p@.skip(j as int));
    }
    j
}

/// Index of the last `.` of `n`, if it has one.
fn last_dot_index(n: &Vec<char>) -> (r: Option<usize>)
    ensures
        r is None <==> last_dot(n@) == -1,
        r matches Some(i) ==> i == last_dot(n@) && i < n.len(),
{
    let mut j: usize = n.len();
    assert(n@.take(j as int) =~= n@);
    while j > 0 && n[j - 1] != '.'
        invariant
            j <= n.len(),
            last_dot(n@) == last_dot(n@.take(j as int)),
        decreases j,
    {
        let ghost t = n@.take(j as int);
        assert(t.drop_last() =~= n@.take(j - 1));
        j = j - 1;
    }
    if j == 0 {
        None
    } else {
        Some(j - 1)
    }
}

/// Whether the last segment of `path` has the extension `ext`.
pub fn has_extension(path: &str, ext: &str) -> (r: bool)
    ensures
        r == (extension(name_of(path@)) == Some(ext@)),
{
    let p = chars_of(path);
    let e = chars_of(ext);
    let start = name_start_of(&p);
    let name = slice_chars(&p, start, p.len());
    assert(name@ == name_of(path@));
    let dots: Vec<char> = vec!['.', '.'];
    assert(dots@ =~= seq!['.', '.']);
    if chars_equal(&name, &dots) {
        return false;
    }
    match last_dot_index(&name) {
        None => false,
        Some(d) => {
            if d == 0 {
                false
            } else {
                let tail = slice_chars(&name, d + 1, name.len());
                assert(tail@ =~= name@.skip(d + 1));
                chars_equal(&tail, &e)
            }
        },
    }
}

/// The answer of the version-control ignore query turned into a decision:
/// an ignored entry is excluded, any other included.
pub fn ignore_check_decision(ignored: bool) -> (r: Decision)
    ensures
        r == ignore_decision(ignored),
{
    if ignored {
        Decision::Exclude
    } else {
        Decision::Include
    }
}

impl Rule {
    /// The rule that excludes what the version-control system ignores.
    pub fn gitignore() -> (r: Rule)
        ensures
            r.name@ == "gitignore"@,
            r.description is None,
            r.only_for is None,
            r.check is VcsIgnore,
    {
        Rule {
            name: String::from_str("gitignore"),
            description: None,
            only_for: None,
            check: RuleCheck::VcsIgnore,
        }
    }

    /// The rule named `name` that excludes files with the extension `ext`.
    pub fn blocked_extension(name: &str, description: Option<String>, ext: &str) -> (r: Rule)
        ensures
            r.name@ == name@,
            r.description == description,
            r.only_for == Some(EntryKind::File),
            r.check matches RuleCheck::BlockedExtension(x) && x@ == ext@,
    {
        Rule {
            name: String::from_str(name),
            description,
            only_for: Some(EntryKind::File),
            check: RuleCheck::BlockedExtension(String::from_str(ext)),
        }
    }

    /// The rule that excludes `exe` files.
    pub fn noexe() -> (r: Rule)
        ensures
            r.name@ == "noexe"@,
            r.description matches Some(d) && d@ == "Do not backup exe files"@,
            r.only_for == Some(EntryKind::File),
            r.check matches RuleCheck::BlockedExtension(x) && x@ == "exe"@,
    {
        Rule::blocked_extension("noexe", Some(String::from_str("Do not backup exe files")), "exe")
    }

    /// Whether this rule applies to `e`.
    pub fn applies(&self, e: &Entry) -> (r: bool)
        ensures
            r == rule_applies(*self, *e),
    {
        let kind_ok = match self.only_for {
            None => true,
            Some(k) => k == e.kind,
        };
        if !kind_ok {
            return false;
        }
        match &self.check {
            RuleCheck::VcsIgnore => e.under_vcs,
            RuleCheck::BlockedExtension(ext) => has_extension(e.path.as_str(), ext.as_str()),
        }
    }
}

/// The chain of a backup run: `exe` files are excluded first, then what the
/// version-control system ignores.
pub fn default_rules() -> (r: Vec<Rule>)
    ensures
        r@.len() == 2,
        r@[0].name@ == "noexe"@,
        r@[0].description matches Some(d) && d@ == "Do not backup exe files"@,
        r@[0].only_for == Some(EntryKind::File),
        r@[0].check matches RuleCheck::BlockedExtension(x) && x@ == "exe"@,
        r@[1].name@ == "gitignore"@,
        r@[1].description is None,
        r@[1].only_for is None,
        r@[1].check is VcsIgnore,
{
    let mut r: Vec<Rule> = Vec::new();
    r.push(Rule::noexe());
    r.push(Rule::gitignore());
    r
}

impl WalkConfig {
    /// A walk with `rules` that follows no symbolic link and keeps empty
    /// directories, so that empty structure reaches the backup too.
    pub fn new(rules: Vec<Rule>) -> (r: WalkConfig)
        ensures
            r.rules@ == rules@,
            !r.follow_symlinks,
            !r.drop_empty_dirs,
    {
        WalkConfig { rules, follow_symlinks: false, drop_empty_dirs: false }
    }
}

/// The directory in which to run the ignore query for `e`.
pub fn ignore_check_dir(e: &Entry) -> (r: Option<String>)
    ensures
        r is None <==> query_dir(*e) is None,
        r matches Some(d) ==> query_dir(*e) == Some(d@),
{
    let p = chars_of(e.path.as_str());
    if e.kind == EntryKind::Directory {
        return Some(string_of(&p));
    }
    let k = name_start_of(&p);
    if k == 0 {
        None
    } else {
        let d = slice_chars(&p, 0, k);
        assert(d@ =~= p@.take(k as int));
        Some(string_of(&d))
    }
}

/// Runs the chain on `e` up to the rule that decides.
///
/// Either the chain's decision comes back, for whatever the ignore query
/// would answer, or the deciding rule needs that query, and its answer
/// decides as `ignore_check_decision` gives it.
pub fn evaluate(rules: &Vec<Rule>, e: &Entry) -> (r: RuleOutcome)
    ensures
        r is NeedsIgnoreCheck <==> chain_asks(rules@, *e),
        r matches RuleOutcome::Decided(d) ==> forall|ignored: bool|
            chain_decision(rules@, *e, ignored) == d,
        r is NeedsIgnoreCheck ==> forall|ignored: bool|
            chain_decision(rules@, *e, ignored) == ignore_decision(ignored),
{
    let mut i: usize = 0;
    assert(rules@.skip(0) =~= rules@);
    while i < rules.len()
        invariant
            i <= rules.len(),
            chain_asks(rules@, *e) == chain_asks(rules@.skip(i as int), *e),
            forall|ignored: bool|
                chain_decision(rules@, *e, ignored) == chain_decision(
                    rules@.skip(i as int),
                    *e,
                    ignored,
                ),
        decreases rules.len() - i,
    {
        let ghost rest = rules@.skip(i as int);
        assert(rest[0] == rules@[i as int]);
        assert(rest.skip(1) =~= rules@.skip(i + 1));
        let rule = &rules[i];
        if rule.applies(e) {
            match &rule.check {
                RuleCheck::VcsIgnore => {
                    return RuleOutcome::NeedsIgnoreCheck;
                },
                RuleCheck::BlockedExtension(ext) => {
                    let d = if has_extension(e.path.as_str(), ext.as_str()) {
                        Decision::Exclude
                    } else {
                        Decision::Include
                    };
                    return RuleOutcome::Decided(d);
                },
            }
        }
        i = i + 1;
    }
    RuleOutcome::Decided(Decision::Include)
}

} // verus!
