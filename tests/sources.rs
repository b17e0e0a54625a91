use mule_lazy_migrate::config::{MigrationConfig, MuleArtifactConfig, ReplacementRule};
use mule_lazy_migrate::file_ops::{
    is_migratable_extension, process_source_file, process_updated_file, replace_in_content,
};
use mule_lazy_migrate::plan::{backup_path, plan_write};

fn rule(from: &str, to: &str) -> ReplacementRule {
    ReplacementRule { from: from.to_string(), to: to.to_string() }
}

#[test]
fn replacement_scenario_foo_twice() {
    let r = replace_in_content("src/a.xml", "foo and foo", &vec![rule("foo", "bar")]);
    assert_eq!(r.content, "bar and bar");
    assert_eq!(r.changes, vec!["src/a.xml: 'foo' -> 'bar'".to_string()]);
}

#[test]
fn later_rule_sees_earlier_result() {
    let rules = vec![rule("a", "b"), rule("b", "c")];
    let r = replace_in_content("f.txt", "ab", &rules);
    assert_eq!(r.content, "cc");
    assert_eq!(r.changes.len(), 2);
}

#[test]
fn matches_do_not_overlap() {
    let r = replace_in_content("f.txt", "aaaa", &vec![rule("aa", "b")]);
    assert_eq!(r.content, "bb");
    let r = replace_in_content("f.txt", "aaa", &vec![rule("aa", "b")]);
    assert_eq!(r.content, "ba");
}

#[test]
fn absent_rule_leaves_file_alone() {
    let out = process_source_file("f.xml", "hello", &vec![rule("foo", "bar")], false, true);
    assert!(out.changes.is_empty());
    assert!(out.plan.write.is_none());
    assert!(out.plan.backup.is_none());
}

#[test]
fn changed_file_is_written_with_backup() {
    let out = process_source_file("f.xml", "foo", &vec![rule("foo", "bar")], false, true);
    assert_eq!(out.plan.write.as_deref(), Some("bar"));
    let b = out.plan.backup.unwrap();
    assert_eq!(b.path, "f.xml.bak");
    assert_eq!(b.content, "foo");
}

#[test]
fn dry_run_reports_but_writes_nothing() {
    let rules = vec![rule("foo", "bar")];
    let dry = process_source_file("f.xml", "foo", &rules, true, true);
    let real = process_source_file("f.xml", "foo", &rules, false, true);
    assert_eq!(dry.changes, real.changes);
    assert!(dry.plan.write.is_none());
    assert!(dry.plan.backup.is_none());
    assert!(real.plan.write.is_some());
}

#[test]
fn plan_without_backup_only_writes() {
    let p = plan_write("p.json", "old", "new", true, false, false);
    assert!(p.backup.is_none());
    assert_eq!(p.write.as_deref(), Some("new"));
    let p = plan_write("p.json", "old", "new", false, false, true);
    assert!(p.backup.is_none());
    assert!(p.write.is_none());
}

#[test]
fn backup_sits_beside_the_file() {
    assert_eq!(backup_path("dir/pom.xml"), "dir/pom.xml.bak");
}

#[test]
fn source_extensions() {
    for ext in ["xml", "dwl", "yaml", "yml", "properties", "txt", "java", "groovy", "json"] {
        assert!(is_migratable_extension(ext), "{ext}");
    }
    for ext in ["", "XML", "rs", "bak", "jsonx"] {
        assert!(!is_migratable_extension(ext), "{ext}");
    }
}

#[test]
fn config_with_empty_rule_is_invalid() {
    let mut config = MigrationConfig {
        app_runtime_version: "4.9.4".to_string(),
        mule_maven_plugin_version: "4.3.1".to_string(),
        munit_version: "3.4.0".to_string(),
        mule_artifact: MuleArtifactConfig {
            min_mule_version: "4.9.0".to_string(),
            java_specification_versions: vec!["17".to_string()],
        },
        replacements: vec![rule("foo", "bar")],
    };
    assert!(config.is_valid());
    config.replacements.push(rule("", "x"));
    assert!(!config.is_valid());
}

#[test]
fn second_replacement_pass_changes_nothing() {
    let rules = vec![rule("foo", "bar")];
    let once = replace_in_content("a.dwl", "foo foo", &rules);
    let twice = replace_in_content("a.dwl", &once.content, &rules);
    assert!(twice.changes.is_empty());
    assert_eq!(twice.content, once.content);
}

#[test]
fn updated_descriptor_is_backed_up_from_its_first_text() {
    let rules = vec![rule("foo", "bar")];
    let out = process_updated_file("pom.xml", "<v>1</v> foo", "<v>2</v> foo", true, &rules, false, true);
    assert_eq!(out.changes, vec!["pom.xml: 'foo' -> 'bar'".to_string()]);
    assert_eq!(out.plan.write.as_deref(), Some("<v>2</v> bar"));
    let b = out.plan.backup.unwrap();
    assert_eq!(b.path, "pom.xml.bak");
    assert_eq!(b.content, "<v>1</v> foo");
    let kept = process_updated_file("pom.xml", "x", "y", true, &vec![], true, true);
    assert!(kept.plan.write.is_none() && kept.plan.backup.is_none());
    let same = process_updated_file("pom.xml", "x", "x", false, &vec![], false, true);
    assert!(same.plan.write.is_none() && same.plan.backup.is_none());
}
