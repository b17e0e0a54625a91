use mule_lazy_migrate::json_ops::{plan_artifact, update_artifact_content, ArtifactError, Field};
use mule_lazy_migrate::xml::{update_pom_content, update_property};

const OLD_POM: &str = "<project><properties><mule.version>4.3.0</mule.version><munit.version>3.2.0</munit.version><mule.maven.plugin.version>4.1.0</mule.maven.plugin.version><app.runtime>4.2.2</app.runtime></properties></project>";

const CURRENT_POM: &str = "<project><properties><mule.version>4.9.4</mule.version><munit.version>3.4.0</munit.version><mule.maven.plugin.version>4.3.1</mule.maven.plugin.version><app.runtime>4.9.4</app.runtime></properties></project>";

#[test]
fn test_update_pom_xml_summary_changes() {
    let r = update_pom_content(OLD_POM, "4.9.4", "4.3.1", "3.4.0");
    assert!(r.changed);
    assert!(r.changes.iter().any(|p| p.contains("mule.version")));
    assert!(r.changes.iter().any(|p| p.contains("munit.version")));
    assert!(r
        .changes
        .iter()
        .any(|p| p.contains("mule.maven.plugin.version")));
    assert!(r.changes.iter().any(|p| p.contains("app.runtime")));
    assert_eq!(r.content, CURRENT_POM);
}

#[test]
fn test_update_pom_xml_summary_no_change() {
    let r = update_pom_content(CURRENT_POM, "4.9.4", "4.3.1", "3.4.0");
    assert!(!r.changed);
    assert!(r.changes.is_empty());
    assert_eq!(r.content, CURRENT_POM);
}

#[test]
fn pom_changes_are_listed_in_property_order() {
    let r = update_pom_content(OLD_POM, "4.9.4", "4.3.1", "3.4.0");
    assert_eq!(
        r.changes,
        vec![
            "mule.version: '4.3.0' -> '4.9.4'".to_string(),
            "munit.version: '3.2.0' -> '3.4.0'".to_string(),
            "mule.maven.plugin.version: '4.1.0' -> '4.3.1'".to_string(),
            "app.runtime: '4.2.2' -> '4.9.4'".to_string(),
        ]
    );
}

#[test]
fn runtime_version_scenario() {
    let r = update_property("<mule.version>4.3.0</mule.version>", "mule.version", "4.9.4");
    assert!(r.changed);
    assert_eq!(r.content, "<mule.version>4.9.4</mule.version>");
    assert_eq!(r.changes.len(), 1);
    assert!(r.changes[0].contains("4.3.0"));
    assert!(r.changes[0].contains("4.9.4"));
}

#[test]
fn trimmed_equal_value_is_kept_verbatim() {
    let text = "<a>\n  <mule.version>  4.9.4\n</mule.version>\n</a>";
    let r = update_property(text, "mule.version", "4.9.4");
    assert!(!r.changed);
    assert!(r.changes.is_empty());
    assert_eq!(r.content, text);
}

#[test]
fn every_occurrence_is_updated() {
    let text = "<x>1</x> and <x> 2 </x> and <x>3</x>";
    let r = update_property(text, "x", "3");
    assert_eq!(r.content, "<x>3</x> and <x>3</x> and <x>3</x>");
    assert_eq!(
        r.changes,
        vec!["x: '1' -> '3'".to_string(), "x: '2' -> '3'".to_string()]
    );
}

#[test]
fn property_name_is_matched_literally() {
    let text = "<muleXversion>1</muleXversion>";
    let r = update_property(text, "mule.version", "2");
    assert!(!r.changed);
    assert_eq!(r.content, text);
}

#[test]
fn absent_property_is_no_error() {
    let text = "<project><name>demo</name></project>";
    let r = update_property(text, "app.runtime", "4.9.4");
    assert!(!r.changed);
    assert_eq!(r.content, text);
}

#[test]
fn value_with_markup_is_not_a_property_value() {
    let text = "<v><b>1</b></v><v>2</v>";
    let r = update_property(text, "v", "9");
    assert_eq!(r.content, "<v><b>1</b></v><v>9</v>");
    assert_eq!(r.changes, vec!["v: '2' -> '9'".to_string()]);
}

#[test]
fn unclosed_element_is_left_alone() {
    let text = "<v>1</w><v>2";
    let r = update_property(text, "v", "9");
    assert!(!r.changed);
    assert_eq!(r.content, text);
}

#[test]
fn test_update_mule_artifact_json_summary_changes() {
    let json = r#"{
            "minMuleVersion": "4.3.0",
            "requiredProduct": {
                "javaSpecificationVersions": ["8"]
            }
        }"#;
    let r = update_artifact_content(json, "4.9.0", &vec!["17".to_string()]).ok().unwrap();
    assert!(r.changed);
    assert!(r.changes.iter().any(|f| f.contains("minMuleVersion")));
    assert!(r.changes.iter().any(|f| f.contains("javaSpecificationVersions")));
}

#[test]
fn test_update_mule_artifact_json_summary_no_change() {
    let json = r#"{
            "minMuleVersion": "4.9.0",
            "requiredProduct": {
                "javaSpecificationVersions": ["17"]
            }
        }"#;
    let r = update_artifact_content(json, "4.9.0", &vec!["17".to_string()]).ok().unwrap();
    assert!(!r.changed);
    assert!(r.changes.is_empty());
    assert_eq!(r.content, json);
}

#[test]
fn artifact_scenario_updates_both_fields() {
    let json = r#"{"minMuleVersion":"4.3.0","requiredProduct":{"javaSpecificationVersions":["8"]}}"#;
    let r = update_artifact_content(json, "4.9.0", &vec!["17".to_string()]).ok().unwrap();
    assert!(r.changed);
    assert_eq!(
        r.changes,
        vec![
            "minMuleVersion: '4.3.0' -> '4.9.0'".to_string(),
            "requiredProduct.javaSpecificationVersions".to_string(),
        ]
    );
    let expected = "{\n  \"minMuleVersion\": \"4.9.0\",\n  \"requiredProduct\": {\n    \"javaSpecificationVersions\": [\n      \"17\"\n    ]\n  }\n}";
    assert_eq!(r.content, expected);
    let again = update_artifact_content(&r.content, "4.9.0", &vec!["17".to_string()]).ok().unwrap();
    assert!(!again.changed);
}

#[test]
fn artifact_without_fields_is_unchanged() {
    let json = r#"{"name":"demo"}"#;
    let r = update_artifact_content(json, "4.9.0", &vec!["17".to_string()]).ok().unwrap();
    assert!(!r.changed);
    assert_eq!(r.content, json);
}

#[test]
fn artifact_with_non_string_version_is_updated() {
    let json = r#"{"minMuleVersion":4}"#;
    let r = update_artifact_content(json, "4.9.0", &vec![]).ok().unwrap();
    assert_eq!(
        r.changes,
        vec!["minMuleVersion: 'not a string' -> '4.9.0'".to_string()]
    );
    assert_eq!(r.content, "{\n  \"minMuleVersion\": \"4.9.0\"\n}");
}

#[test]
fn invalid_artifact_is_an_error() {
    let r = update_artifact_content("{not json", "4.9.0", &vec![]);
    assert!(matches!(r, Err(ArtifactError::InvalidJson(_))));
}

#[test]
fn plan_compares_java_versions_in_order() {
    let p = plan_artifact(
        &Field::Missing,
        &Field::Found(vec!["17".to_string(), "11".to_string()]),
        "4.9.0",
        &vec!["11".to_string(), "17".to_string()],
    );
    assert!(!p.set_min_version);
    assert!(p.set_java_versions);
    assert_eq!(p.changes, vec!["requiredProduct.javaSpecificationVersions".to_string()]);
    let same = plan_artifact(
        &Field::Found("4.9.0".to_string()),
        &Field::Found(vec!["17".to_string()]),
        "4.9.0",
        &vec!["17".to_string()],
    );
    assert!(!same.set_min_version && !same.set_java_versions);
    assert!(same.changes.is_empty());
}

#[test]
fn plan_replaces_field_of_other_shape() {
    let p = plan_artifact(&Field::Other, &Field::Other, "4.9.0", &vec![]);
    assert!(p.set_min_version);
    assert!(p.set_java_versions);
    assert_eq!(p.changes.len(), 2);
}

#[test]
fn second_property_pass_changes_nothing() {
    let text = "<p><mule.version> 4.3.0 </mule.version><x/><mule.version>4.9.4</mule.version></p>";
    let once = update_property(text, "mule.version", "4.9.4");
    assert!(once.changed);
    let twice = update_property(&once.content, "mule.version", "4.9.4");
    assert!(!twice.changed);
    assert_eq!(twice.content, once.content);
}

#[test]
fn second_pom_pass_changes_nothing() {
    let once = update_pom_content(OLD_POM, "4.9.4", "4.3.1", "3.4.0");
    let twice = update_pom_content(&once.content, "4.9.4", "4.3.1", "3.4.0");
    assert!(!twice.changed);
    assert!(twice.changes.is_empty());
    assert_eq!(twice.content, once.content);
}

#[test]
fn artifact_keeps_other_keys() {
    let json = r#"{"name":"demo","minMuleVersion":"4.3.0"}"#;
    let r = update_artifact_content(json, "4.9.0", &vec!["17".to_string()]).ok().unwrap();
    assert_eq!(r.changes, vec!["minMuleVersion: '4.3.0' -> '4.9.0'".to_string()]);
    assert_eq!(r.content, "{\n  \"minMuleVersion\": \"4.9.0\",\n  \"name\": \"demo\"\n}");
}
