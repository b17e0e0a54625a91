use mule_lazy_migrate::check_project;
use mule_lazy_migrate::report::{LineKind, RunResult};

#[test]
fn root_without_descriptors_is_refused() {
    let r = check_project("demo", "demo/pom.xml", false, "demo/mule-artifact.json", false);
    let msg = r.err().unwrap();
    assert!(msg.contains("pom.xml"));
    assert!(msg.contains("mule-artifact.json"));
    assert_eq!(
        msg,
        "'demo' is not a Mule project (pom.xml and mule-artifact.json missing)"
    );
}

#[test]
fn one_missing_descriptor_is_a_warning() {
    let w = check_project("demo", "demo/pom.xml", true, "demo/mule-artifact.json", false).ok().unwrap();
    assert_eq!(w, vec!["No mule-artifact.json found at demo/mule-artifact.json".to_string()]);
    let w = check_project("demo", "demo/pom.xml", false, "demo/mule-artifact.json", true).ok().unwrap();
    assert_eq!(w, vec!["No pom.xml found at demo/pom.xml".to_string()]);
    let w = check_project("demo", "demo/pom.xml", true, "demo/mule-artifact.json", true).ok().unwrap();
    assert!(w.is_empty());
}

fn texts(r: &RunResult) -> Vec<(LineKind, String)> {
    r.summary_lines().into_iter().map(|l| (l.kind, l.text)).collect()
}

#[test]
fn quiet_summary() {
    let r = RunResult::new(false);
    assert_eq!(
        texts(&r),
        vec![
            (LineKind::Banner, "================ MIGRATION SUMMARY ================".to_string()),
            (LineKind::Banner, "No changes were needed. Project is up to date!".to_string()),
            (LineKind::Banner, "==================================================".to_string()),
        ]
    );
}

#[test]
fn summary_sections_in_order() {
    let mut r = RunResult::new(true);
    r.record_build_file("pom.xml".to_string(), vec!["mule.version: '1' -> '2'".to_string()]);
    r.record_artifact_file("mule-artifact.json".to_string(), vec![]);
    r.record_replacements(vec!["a.xml: 'foo' -> 'bar'".to_string()]);
    r.record_problem("No mule-artifact.json found at x".to_string());
    assert_eq!(r.changed_files, vec!["pom.xml".to_string()]);
    assert_eq!(
        texts(&r),
        vec![
            (LineKind::Banner, "================ MIGRATION SUMMARY ================".to_string()),
            (LineKind::Banner, "[DRY-RUN] No files were actually changed".to_string()),
            (LineKind::ChangeHeading, "Changed files:".to_string()),
            (LineKind::ChangeItem, "pom.xml".to_string()),
            (LineKind::ChangeHeading, "Updated properties:".to_string()),
            (LineKind::ChangeItem, "mule.version: '1' -> '2'".to_string()),
            (LineKind::ReplacementHeading, "String replacements:".to_string()),
            (LineKind::ReplacementItem, "a.xml: 'foo' -> 'bar'".to_string()),
            (LineKind::ProblemHeading, "Warnings/Errors:".to_string()),
            (LineKind::ProblemItem, "No mule-artifact.json found at x".to_string()),
            (LineKind::Banner, "==================================================".to_string()),
        ]
    );
}
