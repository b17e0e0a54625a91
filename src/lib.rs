use vstd::prelude::*;

pub mod config;
pub mod file_ops;
pub mod json_ops;
pub mod plan;
pub mod report;
pub mod text;
pub mod xml;
pub mod xml_laws;

use crate::text::views;

verus! {

/// How one migration run is asked for.
pub struct MigrationOptions<'a> {
    /// Path to the migration config JSON file.
    pub config_path: &'a str,
    /// Path to the project root directory.
    pub project_root: &'a str,
    /// Detect and report, but write nothing.
    pub dry_run: bool,
    /// Save each file beside it before it is overwritten.
    pub backup: bool,
    /// Upgrade the Maven dependencies before migrating.
    pub update_maven_deps: bool,
    /// Build the project after migrating.
    pub build_mule_project: bool,
}

/// The name of the build descriptor at a project's root.
pub const BUILD_FILE: &'static str = "pom.xml";

/// The name of the artifact descriptor at a project's root.
pub const ARTIFACT_FILE: &'static str = "mule-artifact.json";

/// The error of a root that holds neither descriptor.
pub open spec fn not_a_project_message(root: Seq<char>) -> Seq<char> {
    "'"@ + root + "' is not a Mule project (pom.xml and mule-artifact.json missing)"@
}

/// The warning for a descriptor that is missing.
pub open spec fn missing_file_message(file: Seq<char>, path: Seq<char>) -> Seq<char> {
    "No "@ + file + " found at "@ + path
}

/// The warnings for the descriptors that are missing, build file first.
pub open spec fn missing_file_warnings(
    pom_path: Seq<char>,
    pom_exists: bool,
    artifact_path: Seq<char>,
    artifact_exists: bool,
) -> Seq<Seq<char>> {
    (if pom_exists {
        Seq::empty()
    } else {
        seq![missing_file_message("pom.xml"@, pom_path)]
    }) + (if artifact_exists {
        Seq::empty()
    } else {
        seq![missing_file_message("mule-artifact.json"@, artifact_path)]
    })
}

fn missing_file(file: &str, path: &str) -> (r: String)
    ensures
        r@ == missing_file_message(file@, path@),
{
    let mut r = String::from_str("No ");
    r.append(file);
    r.append(" found at ");
    r.append(path);
    r
}

/// Decides whether a root is a project to migrate: it fails only when both descriptors are
/// missing, and otherwise gives a warning for each one that is.
pub fn check_project(
    project_root: &str,
    pom_path: &str,
    pom_exists: bool,
    artifact_path: &str,
    artifact_exists: bool,
) -> (r: Result<Vec<String>, String>)
    ensures
        r is Err <==> (!pom_exists && !artifact_exists),
        r is Err ==> r->Err_0@ == not_a_project_message(project_root@),
        r is Ok ==> views(r->Ok_0@) == missing_file_warnings(
            pom_path@,
            pom_exists,
            artifact_path@,
            artifact_exists,
        ),
{
    if !pom_exists && !artifact_exists {
        let mut msg = String::from_str("'");
        msg.append(project_root);
        msg.append("' is not a Mule project (pom.xml and mule-artifact.json missing)");
        return Err(msg);
    }
    let mut warnings: Vec<String> = Vec::new();
    if !pom_exists {
        warnings.push(missing_file("pom.xml", pom_path));
    }
    if !artifact_exists {
        warnings.push(missing_file("mule-artifact.json", artifact_path));
    }
    assert(views(warnings@) =~= missing_file_warnings(
        pom_path@,
        pom_exists,
        artifact_path@,
        artifact_exists,
    ));
    Ok(warnings)
}

} // verus!
