use vstd::prelude::*;

use crate::text::{same_text, views};
use crate::xml::describe_property;

verus! {

/// A field of the artifact descriptor, as found there.
pub enum Field<T> {
    /// The field is absent.
    Missing,
    /// The field holds a value of the expected shape.
    Found(T),
    /// The field holds a value of another shape.
    Other,
}

pub open spec fn text_field_view(f: Field<String>) -> Field<Seq<char>> {
    match f {
        Field::Missing => Field::Missing,
        Field::Found(s) => Field::Found(s@),
        Field::Other => Field::Other,
    }
}

pub open spec fn list_field_view(f: Field<Vec<String>>) -> Field<Seq<Seq<char>>> {
    match f {
        Field::Missing => Field::Missing,
        Field::Found(v) => Field::Found(views(v@)),
        Field::Other => Field::Other,
    }
}

/// Whether the minimum runtime version field gets `min`: where it is present and not `min`.
pub open spec fn min_version_changes(current: Field<Seq<char>>, min: Seq<char>) -> bool {
    match current {
        Field::Missing => false,
        Field::Found(s) => s != min,
        Field::Other => true,
    }
}

/// Whether the Java versions field gets `java`: where it is present and not `java`.
pub open spec fn java_versions_change(current: Field<Seq<Seq<char>>>, java: Seq<Seq<char>>) -> bool {
    match current {
        Field::Missing => false,
        Field::Found(v) => v != java,
        Field::Other => true,
    }
}

/// The description of a change of the minimum runtime version.
pub open spec fn describe_min_version(current: Field<Seq<char>>, min: Seq<char>) -> Seq<char> {
    let old = match current {
        Field::Found(s) => s,
        _ => "not a string"@,
    };
    describe_property("minMuleVersion"@, old, min)
}

/// The changes to the artifact descriptor: the minimum runtime version first, then the Java
/// versions.
pub open spec fn artifact_changes(
    current_min: Field<Seq<char>>,
    current_java: Field<Seq<Seq<char>>>,
    min: Seq<char>,
    java: Seq<Seq<char>>,
) -> Seq<Seq<char>> {
    let first = if min_version_changes(current_min, min) {
        seq![describe_min_version(current_min, min)]
    } else {
        Seq::empty()
    };
    let second = if java_versions_change(current_java, java) {
        seq!["requiredProduct.javaSpecificationVersions"@]
    } else {
        Seq::empty()
    };
    first + second
}

/// Which fields of the artifact descriptor to set, and the changes to report.
pub struct ArtifactPlan {
    pub set_min_version: bool,
    pub set_java_versions: bool,
    pub changes: Vec<String>,
}

fn same_strings(a: &Vec<String>, b: &Vec<String>) -> (r: bool)
    ensures
        r == (views(a@) == views(b@)),
{
    if a.len() != b.len() {
        assert(views(a@).len() != views(b@).len());
        return false;
    }
    let mut k: usize = 0;
    while k < a.len()
        invariant
            a.len() == b.len(),
            k <= a.len(),
            forall|j: int| 0 <= j < k ==> a@[j]@ == b@[j]@,
        decreases a.len() - k,
    {
        if a[k] != b[k] {
            assert(views(a@)[k as int] != views(b@)[k as int]);
            return false;
        }
        k = k + 1;
    }
    assert(views(a@) =~= views(b@));
    true
}

/// Decides, from the fields as found, what to set in the artifact descriptor.
pub fn plan_artifact(
    current_min: &Field<String>,
    current_java: &Field<Vec<String>>,
    min_version: &str,
    java_versions: &Vec<String>,
) -> (r: ArtifactPlan)
    ensures
        r.set_min_version == min_version_changes(text_field_view(*current_min), min_version@),
        r.set_java_versions == java_versions_change(
            list_field_view(*current_java),
            views(java_versions@),
        ),
        views(r.changes@) == artifact_changes(
            text_field_view(*current_min),
            list_field_view(*current_java),
            min_version@,
            views(java_versions@),
        ),
{
    let mut changes: Vec<String> = Vec::new();
    let set_min_version = match current_min {
        Field::Missing => false,
        Field::Found(s) => !same_text(s.as_str(), min_version),
        Field::Other => true,
    };
    if set_min_version {
        let mut d = String::from_str("minMuleVersion");
        d.append(": '");
        match current_min {
            Field::Found(s) => d.append(s.as_str()),
            _ => d.append("not a string"),
        }
        d.append("' -> '");
        d.append(min_version);
        d.append("'");
        changes.push(d);
    }
    let set_java_versions = match current_java {
        Field::Missing => false,
        Field::Found(v) => !same_strings(v, java_versions),
        Field::Other => true,
    };
    if set_java_versions {
        changes.push(String::from_str("requiredProduct.javaSpecificationVersions"));
    }
    let ghost first = if set_min_version {
        seq![describe_min_version(text_field_view(*current_min), min_version@)]
    } else {
        Seq::<Seq<char>>::empty()
    };
    let ghost second = if set_java_versions {
        seq!["requiredProduct.javaSpecificationVersions"@]
    } else {
        Seq::<Seq<char>>::empty()
    };
    assert(views(changes@) =~= first + second);
    ArtifactPlan { set_min_version, set_java_versions, changes }
}

/// Whether `text` is a JSON document, as `serde_json::from_str` reads it.
pub uninterp spec fn json_ok(text: Seq<char>) -> bool;

/// The minimum runtime version field of the JSON document `text`.
pub uninterp spec fn min_field_of(text: Seq<char>) -> Field<Seq<char>>;

/// The Java specification versions field, under `requiredProduct`, of the JSON document `text`.
pub uninterp spec fn java_field_of(text: Seq<char>) -> Field<Seq<Seq<char>>>;

/// The JSON document `text`, with the minimum runtime version and the Java versions set where
/// given and present, rendered indented.
pub uninterp spec fn rendered_of(
    text: Seq<char>,
    min: Option<Seq<char>>,
    java: Option<Seq<Seq<char>>>,
) -> Seq<char>;

const MIN_VERSION_POINTER: &'static str = "/minMuleVersion";

const JAVA_VERSIONS_POINTER: &'static str = "/requiredProduct/javaSpecificationVersions";

/// Relies on `serde_json::from_str`: reads `text` as a JSON document, or gives the parser's
/// message.
#[verifier::external_body]
fn parse_document(text: &str) -> (r: Result<(), String>)
    ensures
        r is Ok <==> json_ok(text@),
{
    serde_json::from_str::<serde_json::Value>(text).map(|_| ()).map_err(|e| e.to_string())
}

/// Relies on `serde_json::Value::pointer` and `Value::as_str`: the minimum runtime version of a
/// JSON document, as a string where it is one.
#[verifier::external_body]
fn read_min_field(text: &str) -> (r: Field<String>)
    requires
        json_ok(text@),
    ensures
        text_field_view(r) == min_field_of(text@),
{
    let doc: Option<serde_json::Value> = serde_json::from_str(text).ok();
    match doc.as_ref().and_then(|d| d.pointer(MIN_VERSION_POINTER)) {
        None => Field::Missing,
        Some(v) => match v.as_str() {
            Some(s) => Field::Found(s.to_string()),
            None => Field::Other,
        },
    }
}

/// Relies on `serde_json::Value::pointer` and `serde_json::from_value`: the Java versions of a
/// JSON document, as a list where they are an array of strings.
#[verifier::external_body]
fn read_java_field(text: &str) -> (r: Field<Vec<String>>)
    requires
        json_ok(text@),
    ensures
        list_field_view(r) == java_field_of(text@),
{
    let doc: Option<serde_json::Value> = serde_json::from_str(text).ok();
    match doc.as_ref().and_then(|d| d.pointer(JAVA_VERSIONS_POINTER)) {
        None => Field::Missing,
        Some(v) => match serde_json::from_value::<Vec<String>>(v.clone()) {
            Ok(l) => Field::Found(l),
            Err(_) => Field::Other,
        },
    }
}

/// Relies on `serde_json::Value::pointer_mut` and `serde_json::to_string_pretty`: sets the given
/// fields where present and renders the document indented. Rendering a `Value` cannot fail, its
/// keys being strings.
#[verifier::external_body]
fn render_updated(text: &str, min: Option<&str>, java: Option<&Vec<String>>) -> (r: String)
    requires
        json_ok(text@),
    ensures
        r@ == rendered_of(
            text@,
            match min {
                Some(m) => Some(m@),
                None => None,
            },
            match java {
                Some(j) => Some(views(j@)),
                None => None,
            },
        ),
{
    let mut doc: serde_json::Value = serde_json::from_str(text).unwrap_or_default();
    if let (Some(m), Some(slot)) = (min, doc.pointer_mut(MIN_VERSION_POINTER)) {
        *slot = serde_json::Value::String(m.to_string());
    }
    if let (Some(j), Some(slot)) = (java, doc.pointer_mut(JAVA_VERSIONS_POINTER)) {
        *slot = serde_json::Value::from(j.clone());
    }
    serde_json::to_string_pretty(&doc).unwrap_or_default()
}

/// Why the artifact descriptor could not be updated.
pub enum ArtifactError {
    /// The descriptor is not JSON; the parser's message.
    InvalidJson(String),
}

/// The outcome of updating the artifact descriptor's text.
pub struct ArtifactUpdate {
    pub changed: bool,
    pub changes: Vec<String>,
    pub content: String,
}

/// The artifact descriptor after the update: rendered anew where a field changes, else as it
/// was.
pub open spec fn artifact_result(text: Seq<char>, min: Seq<char>, java: Seq<Seq<char>>) -> Seq<
    char,
> {
    let set_min = min_version_changes(min_field_of(text), min);
    let set_java = java_versions_change(java_field_of(text), java);
    if set_min || set_java {
        rendered_of(
            text,
            if set_min {
                Some(min)
            } else {
                None
            },
            if set_java {
                Some(java)
            } else {
                None
            },
        )
    } else {
        text
    }
}

/// Sets the minimum runtime version and, under `requiredProduct`, the Java specification
/// versions of an artifact descriptor, each where it is present and differs. A changed document
/// is rendered anew, indented; an unchanged one is returned as it was.
pub fn update_artifact_content(text: &str, min_version: &str, java_versions: &Vec<String>) -> (r:
    Result<ArtifactUpdate, ArtifactError>)
    ensures
        r is Ok <==> json_ok(text@),
        r is Ok ==> views(r->Ok_0.changes@) == artifact_changes(
            min_field_of(text@),
            java_field_of(text@),
            min_version@,
            views(java_versions@),
        ),
        r is Ok ==> r->Ok_0.changed == (r->Ok_0.changes@.len() > 0),
        r is Ok ==> r->Ok_0.content@ == artifact_result(
            text@,
            min_version@,
            views(java_versions@),
        ),
{
    if let Err(msg) = parse_document(text) {
        return Err(ArtifactError::InvalidJson(msg));
    }
    let current_min = read_min_field(text);
    let current_java = read_java_field(text);
    let plan = plan_artifact(&current_min, &current_java, min_version, java_versions);
    if !plan.set_min_version && !plan.set_java_versions {
        return Ok(
            ArtifactUpdate { changed: false, changes: plan.changes, content: String::from_str(text) },
        );
    }
    let min = if plan.set_min_version {
        Some(min_version)
    } else {
        None
    };
    let java = if plan.set_java_versions {
        Some(java_versions)
    } else {
        None
    };
    let content = render_updated(text, min, java);
    Ok(ArtifactUpdate { changed: true, changes: plan.changes, content })
}

} // verus!
