use vstd::prelude::*;

verus! {

/// A copy of a file's text, saved beside it before the file is overwritten.
pub struct Backup {
    pub path: String,
    pub content: String,
}

/// What to persist for one file: an optional backup, then an optional new content.
pub struct WritePlan {
    pub backup: Option<Backup>,
    pub write: Option<String>,
}

/// `path.bak`
pub open spec fn backup_path_of(path: Seq<char>) -> Seq<char> {
    path + ".bak"@
}

/// The new content to write: only for a changed file, and never in a dry run.
pub open spec fn planned_write(updated: Seq<char>, changed: bool, dry_run: bool) -> Option<
    Seq<char>,
> {
    if changed && !dry_run {
        Some(updated)
    } else {
        None
    }
}

/// The backup to make, as (path, content): only where the file is about to be overwritten and
/// backups were asked for.
pub open spec fn planned_backup(
    path: Seq<char>,
    original: Seq<char>,
    changed: bool,
    dry_run: bool,
    backup: bool,
) -> Option<(Seq<char>, Seq<char>)> {
    if changed && !dry_run && backup {
        Some((backup_path_of(path), original))
    } else {
        None
    }
}

impl WritePlan {
    pub open spec fn write_view(&self) -> Option<Seq<char>> {
        match self.write {
            Some(w) => Some(w@),
            None => None,
        }
    }

    pub open spec fn backup_view(&self) -> Option<(Seq<char>, Seq<char>)> {
        match self.backup {
            Some(b) => Some((b.path@, b.content@)),
            None => None,
        }
    }
}

/// The path of the backup of the file at `path`.
pub fn backup_path(path: &str) -> (r: String)
    ensures
        r@ == backup_path_of(path@),
{
    let mut r = String::from_str(path);
    r.append(".bak");
    r
}

/// What to persist for the file at `path`, read as `original` and computed as `updated`.
pub fn plan_write(
    path: &str,
    original: &str,
    updated: &str,
    changed: bool,
    dry_run: bool,
    backup: bool,
) -> (r: WritePlan)
    ensures
        r.write_view() == planned_write(updated@, changed, dry_run),
        r.backup_view() == planned_backup(path@, original@, changed, dry_run, backup),
{
    if !changed || dry_run {
        return WritePlan { backup: None, write: None };
    }
    let saved = if backup {
        Some(Backup { path: backup_path(path), content: String::from_str(original) })
    } else {
        None
    };
    WritePlan { backup: saved, write: Some(String::from_str(updated)) }
}

/// A dry run persists nothing: no file is written and no backup is made.
pub proof fn lemma_dry_run_writes_nothing(
    path: Seq<char>,
    original: Seq<char>,
    updated: Seq<char>,
    changed: bool,
    backup: bool,
)
    ensures
        planned_write(updated, changed, true) is None,
        planned_backup(path, original, changed, true, backup) is None,
{
}

/// Whenever a file is overwritten with backups on, its backup holds the text from before.
pub proof fn lemma_backup_holds_original(
    path: Seq<char>,
    original: Seq<char>,
    updated: Seq<char>,
    changed: bool,
    dry_run: bool,
)
    requires
        planned_write(updated, changed, dry_run) is Some,
    ensures
        planned_backup(path, original, changed, dry_run, true) == Some(
            (backup_path_of(path), original),
        ),
{
}

} // verus!
