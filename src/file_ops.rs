use vstd::prelude::*;

use crate::config::{rules_wf, ReplacementRule};
use crate::plan::{plan_write, planned_backup, planned_write, WritePlan};
use crate::text::{same_text, seq_at, views};

verus! {

/// Whether `p` occurs somewhere in `s`.
pub open spec fn occurs(s: Seq<char>, p: Seq<char>) -> bool {
    exists|i: int| #[trigger] seq_at(s, i, p)
}

/// `s` with every occurrence of the non-empty `from` replaced by `to`, matches taken left to
/// right without overlap.
pub open spec fn replace_all(s: Seq<char>, from: Seq<char>, to: Seq<char>) -> Seq<char>
    decreases s.len(),
{
    if from.len() == 0 || s.len() == 0 {
        s
    } else if from.is_prefix_of(s) {
        to + replace_all(s.skip(from.len() as int), from, to)
    } else {
        seq![s[0]] + replace_all(s.drop_first(), from, to)
    }
}

/// Relies on `str::replace`: all matches of `from`, found left to right without overlap, are
/// replaced by `to`.
#[verifier::external_body]
fn replace_str(s: &str, from: &str, to: &str) -> (r: String)
    requires
        from@.len() > 0,
    ensures
        r@ == replace_all(s@, from@, to@),
{
    s.replace(from, to)
}

/// Relies on `str::contains`: whether `p` occurs in `s`.
#[verifier::external_body]
fn contains_str(s: &str, p: &str) -> (r: bool)
    ensures
        r == occurs(s@, p@),
{
    s.contains(p)
}

/// The text after the first `k` rules, each applied where its `from` occurs.
pub open spec fn apply_rules(s: Seq<char>, rules: Seq<ReplacementRule>, k: int) -> Seq<char>
    decreases k,
{
    if k <= 0 {
        s
    } else {
        let prev = apply_rules(s, rules, k - 1);
        let rule = rules[k - 1];
        if occurs(prev, rule.from@) {
            replace_all(prev, rule.from@, rule.to@)
        } else {
            prev
        }
    }
}

/// `path: 'from' -> 'to'`
pub open spec fn describe_replacement(path: Seq<char>, from: Seq<char>, to: Seq<char>) -> Seq<
    char,
> {
    path + ": '"@ + from + "' -> '"@ + to + "'"@
}

/// One description for each of the first `k` rules that found its `from`.
pub open spec fn rule_changes(path: Seq<char>, s: Seq<char>, rules: Seq<ReplacementRule>, k: int) -> Seq<
    Seq<char>,
>
    decreases k,
{
    if k <= 0 {
        Seq::empty()
    } else {
        let prev = rule_changes(path, s, rules, k - 1);
        let rule = rules[k - 1];
        if occurs(apply_rules(s, rules, k - 1), rule.from@) {
            prev.push(describe_replacement(path, rule.from@, rule.to@))
        } else {
            prev
        }
    }
}

/// The text of a file after all rules, and what they changed.
pub struct Replaced {
    pub content: String,
    pub changes: Vec<String>,
}

fn describe(path: &str, rule: &ReplacementRule) -> (r: String)
    ensures
        r@ == describe_replacement(path@, rule.from@, rule.to@),
{
    let mut r = String::from_str(path);
    r.append(": '");
    r.append(rule.from.as_str());
    r.append("' -> '");
    r.append(rule.to.as_str());
    r.append("'");
    r
}

/// Applies the rules in order to the content of the file at `path`.
pub fn replace_in_content(path: &str, content: &str, rules: &Vec<ReplacementRule>) -> (r: Replaced)
    requires
        rules_wf(rules@),
    ensures
        r.content@ == apply_rules(content@, rules@, rules@.len() as int),
        views(r.changes@) == rule_changes(path@, content@, rules@, rules@.len() as int),
{
    let mut current = String::from_str(content);
    let mut changes: Vec<String> = Vec::new();
    let mut k: usize = 0;
    while k < rules.len()
        invariant
            k <= rules.len(),
            rules_wf(rules@),
            current@ == apply_rules(content@, rules@, k as int),
            views(changes@) == rule_changes(path@, content@, rules@, k as int),
        decreases rules.len() - k,
    {
        let rule = &rules[k];
        assert(rules@[k as int].from@.len() > 0);
        if contains_str(current.as_str(), rule.from.as_str()) {
            let d = describe(path, rule);
            let ghost before = views(changes@);
            changes.push(d);
            assert(views(changes@) =~= before.push(d@));
            current = replace_str(current.as_str(), rule.from.as_str(), rule.to.as_str());
        }
        k = k + 1;
    }
    Replaced { content: current, changes }
}

/// The text of a source file after all rules.
pub open spec fn source_result(content: Seq<char>, rules: Seq<ReplacementRule>) -> Seq<char> {
    apply_rules(content, rules, rules.len() as int)
}

/// The changes reported for a source file.
pub open spec fn source_changes(
    path: Seq<char>,
    content: Seq<char>,
    rules: Seq<ReplacementRule>,
) -> Seq<Seq<char>> {
    rule_changes(path, content, rules, rules.len() as int)
}

/// For one source file: the changes reported, the content written, and the backup made.
pub open spec fn source_outcome(
    path: Seq<char>,
    content: Seq<char>,
    rules: Seq<ReplacementRule>,
    dry_run: bool,
    backup: bool,
) -> (Seq<Seq<char>>, Option<Seq<char>>, Option<(Seq<char>, Seq<char>)>) {
    let changes = source_changes(path, content, rules);
    let changed = changes.len() > 0;
    (
        changes,
        planned_write(source_result(content, rules), changed, dry_run),
        planned_backup(path, content, changed, dry_run, backup),
    )
}

/// What the rules do to one source file.
pub struct FileOutcome {
    pub changes: Vec<String>,
    pub plan: WritePlan,
}

/// Applies the rules to the file at `path`, read as `content`, and plans what to persist.
pub fn process_source_file(
    path: &str,
    content: &str,
    rules: &Vec<ReplacementRule>,
    dry_run: bool,
    backup: bool,
) -> (r: FileOutcome)
    requires
        rules_wf(rules@),
    ensures
        (views(r.changes@), r.plan.write_view(), r.plan.backup_view()) == source_outcome(
            path@,
            content@,
            rules@,
            dry_run,
            backup,
        ),
{
    let replaced = replace_in_content(path, content, rules);
    let changed = replaced.changes.len() > 0;
    let plan = plan_write(path, content, replaced.content.as_str(), changed, dry_run, backup);
    FileOutcome { changes: replaced.changes, plan }
}

/// For a file that an earlier step of the run already updated in memory, from `original` to
/// `updated`: the changes the rules report, the content written, and the backup made of the
/// text from before the run.
pub open spec fn updated_file_outcome(
    path: Seq<char>,
    original: Seq<char>,
    updated: Seq<char>,
    updated_changed: bool,
    rules: Seq<ReplacementRule>,
    dry_run: bool,
    backup: bool,
) -> (Seq<Seq<char>>, Option<Seq<char>>, Option<(Seq<char>, Seq<char>)>) {
    let changes = source_changes(path, updated, rules);
    let changed = updated_changed || changes.len() > 0;
    (
        changes,
        planned_write(source_result(updated, rules), changed, dry_run),
        planned_backup(path, original, changed, dry_run, backup),
    )
}

/// Applies the rules to a file already updated in memory, and plans one write and at most one
/// backup, of its text from before the run.
pub fn process_updated_file(
    path: &str,
    original: &str,
    updated: &str,
    updated_changed: bool,
    rules: &Vec<ReplacementRule>,
    dry_run: bool,
    backup: bool,
) -> (r: FileOutcome)
    requires
        rules_wf(rules@),
    ensures
        (views(r.changes@), r.plan.write_view(), r.plan.backup_view()) == updated_file_outcome(
            path@,
            original@,
            updated@,
            updated_changed,
            rules@,
            dry_run,
            backup,
        ),
{
    let replaced = replace_in_content(path, updated, rules);
    let changed = updated_changed || replaced.changes.len() > 0;
    let plan = plan_write(path, original, replaced.content.as_str(), changed, dry_run, backup);
    FileOutcome { changes: replaced.changes, plan }
}

proof fn lemma_absent_rules_prefix(
    path: Seq<char>,
    content: Seq<char>,
    rules: Seq<ReplacementRule>,
    k: int,
)
    requires
        0 <= k <= rules.len(),
        forall|j: int| 0 <= j < rules.len() ==> !occurs(content, #[trigger] rules[j].from@),
    ensures
        apply_rules(content, rules, k) == content,
        rule_changes(path, content, rules, k) == Seq::<Seq<char>>::empty(),
    decreases k,
{
    if k > 0 {
        lemma_absent_rules_prefix(path, content, rules, k - 1);
        assert(!occurs(content, rules[k - 1].from@));
    }
}

/// Where no rule's `from` occurs in a file, the file keeps its text, no change is reported,
/// nothing is written and no backup is made.
pub proof fn lemma_absent_rules_change_nothing(
    path: Seq<char>,
    content: Seq<char>,
    rules: Seq<ReplacementRule>,
    dry_run: bool,
    backup: bool,
)
    requires
        forall|j: int| 0 <= j < rules.len() ==> !occurs(content, #[trigger] rules[j].from@),
    ensures
        source_result(content, rules) == content,
        source_outcome(path, content, rules, dry_run, backup) == (
            Seq::<Seq<char>>::empty(),
            None::<Seq<char>>,
            None::<(Seq<char>, Seq<char>)>,
        ),
{
    lemma_absent_rules_prefix(path, content, rules, rules.len() as int);
}

/// A dry run reports the same changes as a real run, and persists nothing.
pub proof fn lemma_dry_run_reports_same(
    path: Seq<char>,
    content: Seq<char>,
    rules: Seq<ReplacementRule>,
    backup: bool,
)
    ensures
        source_outcome(path, content, rules, true, backup).0 == source_outcome(
            path,
            content,
            rules,
            false,
            backup,
        ).0,
        source_outcome(path, content, rules, true, backup).1 is None,
        source_outcome(path, content, rules, true, backup).2 is None,
{
}

/// The file extensions whose files the rules are applied to.
pub open spec fn is_source_extension(ext: Seq<char>) -> bool {
    ext == "xml"@ || ext == "dwl"@ || ext == "yaml"@ || ext == "yml"@ || ext == "properties"@
        || ext == "txt"@ || ext == "java"@ || ext == "groovy"@ || ext == "json"@
}

/// Whether files with extension `ext` get the replacement rules.
pub fn is_migratable_extension(ext: &str) -> (r: bool)
    ensures
        r == is_source_extension(ext@),
{
    same_text(ext, "xml") || same_text(ext, "dwl") || same_text(ext, "yaml") || same_text(
        ext,
        "yml",
    ) || same_text(ext, "properties") || same_text(ext, "txt") || same_text(ext, "java")
        || same_text(ext, "groovy") || same_text(ext, "json")
}

} // verus!
