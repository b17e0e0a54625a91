use vstd::prelude::*;

use crate::text::views;

verus! {

/// What a line of the summary is, which decides how it is shown.
#[derive(PartialEq, Eq, Structural, Clone, Copy, Debug)]
pub enum LineKind {
    Banner,
    ChangeHeading,
    ChangeItem,
    ReplacementHeading,
    ReplacementItem,
    ProblemHeading,
    ProblemItem,
}

/// One line of the summary.
pub struct SummaryLine {
    pub kind: LineKind,
    pub text: String,
}

/// Everything one run changed or would change, and what went wrong on the way.
pub struct RunResult {
    pub changed_files: Vec<String>,
    pub changed_properties: Vec<String>,
    pub changed_json: Vec<String>,
    pub replacements: Vec<String>,
    pub errors: Vec<String>,
    pub dry_run: bool,
}

pub open spec fn line_views(v: Seq<SummaryLine>) -> Seq<(LineKind, Seq<char>)> {
    v.map_values(|l: SummaryLine| (l.kind, l.text@))
}

/// A heading followed by its items, or nothing when there are no items.
pub open spec fn section(
    heading_kind: LineKind,
    heading: Seq<char>,
    item_kind: LineKind,
    items: Seq<Seq<char>>,
) -> Seq<(LineKind, Seq<char>)> {
    if items.len() == 0 {
        Seq::empty()
    } else {
        seq![(heading_kind, heading)] + items.map_values(|t: Seq<char>| (item_kind, t))
    }
}

pub open spec fn title_line() -> Seq<char> {
    "================ MIGRATION SUMMARY ================"@
}

pub open spec fn closing_line() -> Seq<char> {
    "=================================================="@
}

impl RunResult {
    /// Nothing changed and nothing went wrong.
    pub open spec fn is_quiet(&self) -> bool {
        &&& self.changed_files@.len() == 0
        &&& self.changed_properties@.len() == 0
        &&& self.changed_json@.len() == 0
        &&& self.replacements@.len() == 0
        &&& self.errors@.len() == 0
    }

    /// The summary: a title, a dry-run notice where it applies, the changed files, properties,
    /// JSON fields, replacements and problems in that order, a notice when there is nothing to
    /// say, and a closing rule.
    pub open spec fn summary(&self) -> Seq<(LineKind, Seq<char>)> {
        seq![(LineKind::Banner, title_line())] + (if self.dry_run {
            seq![(LineKind::Banner, "[DRY-RUN] No files were actually changed"@)]
        } else {
            Seq::empty()
        }) + section(
            LineKind::ChangeHeading,
            "Changed files:"@,
            LineKind::ChangeItem,
            views(self.changed_files@),
        ) + section(
            LineKind::ChangeHeading,
            "Updated properties:"@,
            LineKind::ChangeItem,
            views(self.changed_properties@),
        ) + section(
            LineKind::ChangeHeading,
            "Updated JSON fields:"@,
            LineKind::ChangeItem,
            views(self.changed_json@),
        ) + section(
            LineKind::ReplacementHeading,
            "String replacements:"@,
            LineKind::ReplacementItem,
            views(self.replacements@),
        ) + section(
            LineKind::ProblemHeading,
            "Warnings/Errors:"@,
            LineKind::ProblemItem,
            views(self.errors@),
        ) + (if self.is_quiet() {
            seq![(LineKind::Banner, "No changes were needed. Project is up to date!"@)]
        } else {
            Seq::empty()
        }) + seq![(LineKind::Banner, closing_line())]
    }

    /// An empty result.
    pub fn new(dry_run: bool) -> (r: RunResult)
        ensures
            r.is_quiet(),
            r.dry_run == dry_run,
    {
        RunResult {
            changed_files: Vec::new(),
            changed_properties: Vec::new(),
            changed_json: Vec::new(),
            replacements: Vec::new(),
            errors: Vec::new(),
            dry_run,
        }
    }

    /// Records the changes made to the build file at `path`: the file counts as changed when
    /// there is at least one.
    pub fn record_build_file(&mut self, path: String, changes: Vec<String>)
        ensures
            final(self).changed_files@ == if changes@.len() > 0 {
                old(self).changed_files@.push(path)
            } else {
                old(self).changed_files@
            },
            final(self).changed_properties@ == old(self).changed_properties@ + changes@,
            final(self).changed_json@ == old(self).changed_json@,
            final(self).replacements@ == old(self).replacements@,
            final(self).errors@ == old(self).errors@,
            final(self).dry_run == old(self).dry_run,
    {
        if changes.len() > 0 {
            self.changed_files.push(path);
        }
        let mut changes = changes;
        self.changed_properties.append(&mut changes);
    }

    /// Records the changes made to the artifact descriptor at `path`.
    pub fn record_artifact_file(&mut self, path: String, changes: Vec<String>)
        ensures
            final(self).changed_files@ == if changes@.len() > 0 {
                old(self).changed_files@.push(path)
            } else {
                old(self).changed_files@
            },
            final(self).changed_json@ == old(self).changed_json@ + changes@,
            final(self).changed_properties@ == old(self).changed_properties@,
            final(self).replacements@ == old(self).replacements@,
            final(self).errors@ == old(self).errors@,
            final(self).dry_run == old(self).dry_run,
    {
        if changes.len() > 0 {
            self.changed_files.push(path);
        }
        let mut changes = changes;
        self.changed_json.append(&mut changes);
    }

    /// Records the replacements made in source files.
    pub fn record_replacements(&mut self, changes: Vec<String>)
        ensures
            final(self).replacements@ == old(self).replacements@ + changes@,
            final(self).changed_files@ == old(self).changed_files@,
            final(self).changed_properties@ == old(self).changed_properties@,
            final(self).changed_json@ == old(self).changed_json@,
            final(self).errors@ == old(self).errors@,
            final(self).dry_run == old(self).dry_run,
    {
        let mut changes = changes;
        self.replacements.append(&mut changes);
    }

    /// Records a warning or an error.
    pub fn record_problem(&mut self, message: String)
        ensures
            final(self).errors@ == old(self).errors@.push(message),
            final(self).changed_files@ == old(self).changed_files@,
            final(self).changed_properties@ == old(self).changed_properties@,
            final(self).changed_json@ == old(self).changed_json@,
            final(self).replacements@ == old(self).replacements@,
            final(self).dry_run == old(self).dry_run,
    {
        self.errors.push(message);
    }

    /// Whether nothing changed and nothing went wrong.
    pub fn quiet(&self) -> (r: bool)
        ensures
            r == self.is_quiet(),
    {
        self.changed_files.len() == 0 && self.changed_properties.len() == 0
            && self.changed_json.len() == 0 && self.replacements.len() == 0
            && self.errors.len() == 0
    }

    /// The lines of the summary, in order.
    pub fn summary_lines(&self) -> (r: Vec<SummaryLine>)
        ensures
            line_views(r@) == self.summary(),
    {
        let mut out: Vec<SummaryLine> = Vec::new();
        push_line(&mut out, LineKind::Banner, "================ MIGRATION SUMMARY ================");
        if self.dry_run {
            push_line(&mut out, LineKind::Banner, "[DRY-RUN] No files were actually changed");
        }
        push_section(
            &mut out,
            LineKind::ChangeHeading,
            "Changed files:",
            LineKind::ChangeItem,
            &self.changed_files,
        );
        push_section(
            &mut out,
            LineKind::ChangeHeading,
            "Updated properties:",
            LineKind::ChangeItem,
            &self.changed_properties,
        );
        push_section(
            &mut out,
            LineKind::ChangeHeading,
            "Updated JSON fields:",
            LineKind::ChangeItem,
            &self.changed_json,
        );
        push_section(
            &mut out,
            LineKind::ReplacementHeading,
            "String replacements:",
            LineKind::ReplacementItem,
            &self.replacements,
        );
        push_section(
            &mut out,
            LineKind::ProblemHeading,
            "Warnings/Errors:",
            LineKind::ProblemItem,
            &self.errors,
        );
        if self.quiet() {
            push_line(&mut out, LineKind::Banner, "No changes were needed. Project is up to date!");
        }
        push_line(&mut out, LineKind::Banner, "==================================================");
        assert(line_views(out@) =~= self.summary());
        out
    }
}

fn push_line(out: &mut Vec<SummaryLine>, kind: LineKind, text: &str)
    ensures
        line_views(final(out)@) == line_views(old(out)@) + seq![(kind, text@)],
{
    let ghost before = line_views(out@);
    out.push(SummaryLine { kind, text: String::from_str(text) });
    assert(line_views(out@) =~= before + seq![(kind, text@)]);
}

fn push_section(
    out: &mut Vec<SummaryLine>,
    heading_kind: LineKind,
    heading: &str,
    item_kind: LineKind,
    items: &Vec<String>,
)
    ensures
        line_views(final(out)@) == line_views(old(out)@) + section(
            heading_kind,
            heading@,
            item_kind,
            views(items@),
        ),
{
    if items.len() == 0 {
        assert(line_views(out@) =~= line_views(out@) + section(
            heading_kind,
            heading@,
            item_kind,
            views(items@),
        ));
        return;
    }
    let ghost start = line_views(out@);
    push_line(out, heading_kind, heading);
    let mut k: usize = 0;
    while k < items.len()
        invariant
            k <= items.len(),
            line_views(out@) == start + seq![(heading_kind, heading@)] + views(
                items@,
            ).subrange(0, k as int).map_values(|t: Seq<char>| (item_kind, t)),
        decreases items.len() - k,
    {
        let ghost before = line_views(out@);
        out.push(SummaryLine { kind: item_kind, text: items[k].clone() });
        assert(line_views(out@) =~= before + seq![(item_kind, items@[k as int]@)]);
        k = k + 1;
        assert(views(items@).subrange(0, k as int).map_values(|t: Seq<char>| (item_kind, t))
            =~= views(items@).subrange(0, k - 1).map_values(|t: Seq<char>| (item_kind, t))
            + seq![(item_kind, items@[k - 1]@)]);
    }
    assert(views(items@).subrange(0, items@.len() as int) =~= views(items@));
}

} // verus!
