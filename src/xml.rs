use vstd::prelude::*;

use crate::text::{
    chars_of, matches_at, push_range, range_eq, seq_at, string_of_range, trim, trim_bounds, views,
};

verus! {

/// `<name>`
pub open spec fn open_tag(name: Seq<char>) -> Seq<char> {
    seq!['<'] + name + seq!['>']
}

/// `</name>`
pub open spec fn close_tag(name: Seq<char>) -> Seq<char> {
    seq!['<', '/'] + name + seq!['>']
}

/// How many characters lie between index `k` and the next `<` (or the end).
pub open spec fn text_len(s: Seq<char>, k: int) -> nat
    decreases s.len() - k,
{
    if 0 <= k < s.len() && s[k] != '<' {
        1 + text_len(s, k + 1)
    } else {
        0
    }
}

/// Where the value of an element opened at `i` starts.
pub open spec fn value_start(name: Seq<char>, i: int) -> int {
    i + open_tag(name).len()
}

/// Where the value of an element opened at `i` ends: at the next `<`.
pub open spec fn value_end(s: Seq<char>, name: Seq<char>, i: int) -> int {
    value_start(name, i) + text_len(s, value_start(name, i))
}

/// Whether a property element `<name>value</name>`, whose value holds no `<`, starts at `i`.
pub open spec fn element_at(s: Seq<char>, name: Seq<char>, i: int) -> bool {
    seq_at(s, i, open_tag(name)) && seq_at(s, value_end(s, name, i), close_tag(name))
}

/// Where the element that starts at `i` ends.
pub open spec fn element_end(s: Seq<char>, name: Seq<char>, i: int) -> int {
    value_end(s, name, i) + close_tag(name).len()
}

/// The value of the element that starts at `i`.
pub open spec fn element_value(s: Seq<char>, name: Seq<char>, i: int) -> Seq<char> {
    s.subrange(value_start(name, i), value_end(s, name, i))
}

/// Whether the element that starts at `i` gets a new value.
pub open spec fn element_changes(s: Seq<char>, name: Seq<char>, new: Seq<char>, i: int) -> bool {
    trim(element_value(s, name, i)) != new
}

/// The text from index `i` on, with each property element `name` found by a left-to-right scan
/// from there holding `new` where its trimmed value differed from it.
pub open spec fn rewrite_from(s: Seq<char>, name: Seq<char>, new: Seq<char>, i: int) -> Seq<
    char,
>
    decreases s.len() - i,
{
    if 0 <= i < s.len() {
        if element_at(s, name, i) {
            let value = if element_changes(s, name, new, i) {
                new
            } else {
                element_value(s, name, i)
            };
            open_tag(name) + value + close_tag(name) + rewrite_from(
                s,
                name,
                new,
                element_end(s, name, i),
            )
        } else {
            seq![s[i]] + rewrite_from(s, name, new, i + 1)
        }
    } else {
        Seq::empty()
    }
}

/// `name: 'old' -> 'new'`
pub open spec fn describe_property(name: Seq<char>, old: Seq<char>, new: Seq<char>) -> Seq<char> {
    name + ": '"@ + old + "' -> '"@ + new + "'"@
}

/// The descriptions of the changes that `rewrite_from` makes, in order.
pub open spec fn changes_from(s: Seq<char>, name: Seq<char>, new: Seq<char>, i: int) -> Seq<
    Seq<char>,
>
    decreases s.len() - i,
{
    if 0 <= i < s.len() {
        if element_at(s, name, i) {
            let rest = changes_from(s, name, new, element_end(s, name, i));
            if element_changes(s, name, new, i) {
                seq![describe_property(name, trim(element_value(s, name, i)), new)] + rest
            } else {
                rest
            }
        } else {
            changes_from(s, name, new, i + 1)
        }
    } else {
        Seq::empty()
    }
}

/// The whole text with property `name` set to `new`.
pub open spec fn rewrite_property(s: Seq<char>, name: Seq<char>, new: Seq<char>) -> Seq<char> {
    rewrite_from(s, name, new, 0)
}

/// The changes that `rewrite_property` makes.
pub open spec fn property_changes(s: Seq<char>, name: Seq<char>, new: Seq<char>) -> Seq<
    Seq<char>,
> {
    changes_from(s, name, new, 0)
}

/// The outcome of setting one property in a text.
pub struct PropertyUpdate {
    pub changed: bool,
    pub changes: Vec<String>,
    pub content: String,
}

fn tag_chars(closing: bool, name: &Vec<char>) -> (r: Vec<char>)
    ensures
        r@ == (if closing {
            close_tag(name@)
        } else {
            open_tag(name@)
        }),
{
    let mut r: Vec<char> = Vec::new();
    r.push('<');
    if closing {
        r.push('/');
    }
    push_range(&mut r, name, 0, name.len());
    r.push('>');
    assert(name@.subrange(0, name@.len() as int) =~= name@);
    if closing {
        assert(r@ =~= close_tag(name@));
    } else {
        assert(r@ =~= open_tag(name@));
    }
    r
}

fn describe(name: &str, s: &Vec<char>, lo: usize, hi: usize, new_value: &str) -> (r: String)
    requires
        lo <= hi <= s.len(),
    ensures
        r@ == describe_property(name@, s@.subrange(lo as int, hi as int), new_value@),
{
    let mut r = String::from_str(name);
    r.append(": '");
    let old = string_of_range(s, lo, hi);
    r.append(old.as_str());
    r.append("' -> '");
    r.append(new_value);
    r.append("'");
    r
}

/// Sets every element `<name>value</name>` of `content` (its value free of `<`) to `new_value`,
/// where the value, trimmed of whitespace, differs from it; other text is kept as it is.
pub fn update_property(content: &str, name: &str, new_value: &str) -> (r: PropertyUpdate)
    ensures
        r.content@ == rewrite_property(content@, name@, new_value@),
        views(r.changes@) == property_changes(content@, name@, new_value@),
        r.changed == (r.changes@.len() > 0),
{
    let s = chars_of(content);
    let nm = chars_of(name);
    let nv = chars_of(new_value);
    let open = tag_chars(false, &nm);
    let close = tag_chars(true, &nm);
    let ghost sv = s@;
    let mut out: Vec<char> = Vec::new();
    let mut changes: Vec<String> = Vec::new();
    let mut i: usize = 0;
    while i < s.len()
        invariant
            sv == s@,
            sv == content@,
            nm@ == name@,
            nv@ == new_value@,
            open@ == open_tag(name@),
            close@ == close_tag(name@),
            i <= s.len(),
            rewrite_from(sv, name@, nv@, 0) == out@ + rewrite_from(sv, name@, nv@, i as int),
            changes_from(sv, name@, nv@, 0) == views(changes@) + changes_from(
                sv,
                name@,
                nv@,
                i as int,
            ),
        decreases s.len() - i,
    {
        let mut found = false;
        if matches_at(&s, i, &open) {
            let vs = i + open.len();
            let mut e = vs;
            while e < s.len() && s[e] != '<'
                invariant
                    sv == s@,
                    vs <= e <= s.len(),
                    text_len(sv, vs as int) == (e - vs) + text_len(sv, e as int),
                decreases s.len() - e,
            {
                e = e + 1;
            }
            if matches_at(&s, e, &close) {
                found = true;
                let te = e + close.len();
                assert(element_at(sv, name@, i as int));
                assert(element_end(sv, name@, i as int) == te);
                let (lo, hi) = trim_bounds(&s, vs, e);
                let ghost before = out@;
                let ghost value = sv.subrange(vs as int, e as int);
                if range_eq(&s, lo, hi, &nv) {
                    push_range(&mut out, &s, i, te);
                    assert(sv.subrange(i as int, te as int) =~= open_tag(name@) + value
                        + close_tag(name@)) by {
                        assert(sv.subrange(i as int, vs as int) == open_tag(name@));
                        assert(sv.subrange(e as int, te as int) == close_tag(name@));
                    }
                } else {
                    push_range(&mut out, &open, 0, open.len());
                    push_range(&mut out, &nv, 0, nv.len());
                    push_range(&mut out, &close, 0, close.len());
                    assert(open@.subrange(0, open@.len() as int) =~= open@);
                    assert(nv@.subrange(0, nv@.len() as int) =~= nv@);
                    assert(close@.subrange(0, close@.len() as int) =~= close@);
                    let d = describe(name, &s, lo, hi, new_value);
                    let ghost cbefore = views(changes@);
                    changes.push(d);
                    assert(views(changes@) =~= cbefore + seq![d@]);
                }
                assert(out@ =~= before + (open_tag(name@) + (if element_changes(
                    sv,
                    name@,
                    nv@,
                    i as int,
                ) {
                    nv@
                } else {
                    value
                }) + close_tag(name@)));
                i = te;
            }
        }
        if !found {
            assert(!element_at(sv, name@, i as int));
            let ghost before = out@;
            out.push(s[i]);
            assert(out@ =~= before + seq![sv[i as int]]);
            i = i + 1;
        }
    }
    let content = string_of_range(&out, 0, out.len());
    assert(out@.subrange(0, out@.len() as int) =~= out@);
    let changed = changes.len() > 0;
    PropertyUpdate { changed, changes, content }
}

/// The build file's text after its four version properties are set, in this order:
/// `mule.version`, `munit.version`, `mule.maven.plugin.version`, `app.runtime`.
pub open spec fn pom_result(
    s: Seq<char>,
    runtime: Seq<char>,
    plugin: Seq<char>,
    munit: Seq<char>,
) -> Seq<char> {
    let s1 = rewrite_property(s, "mule.version"@, runtime);
    let s2 = rewrite_property(s1, "munit.version"@, munit);
    let s3 = rewrite_property(s2, "mule.maven.plugin.version"@, plugin);
    rewrite_property(s3, "app.runtime"@, runtime)
}

/// The changes that `pom_result` makes, property by property.
pub open spec fn pom_changes(
    s: Seq<char>,
    runtime: Seq<char>,
    plugin: Seq<char>,
    munit: Seq<char>,
) -> Seq<Seq<char>> {
    let s1 = rewrite_property(s, "mule.version"@, runtime);
    let s2 = rewrite_property(s1, "munit.version"@, munit);
    let s3 = rewrite_property(s2, "mule.maven.plugin.version"@, plugin);
    property_changes(s, "mule.version"@, runtime) + property_changes(s1, "munit.version"@, munit)
        + property_changes(s2, "mule.maven.plugin.version"@, plugin) + property_changes(
        s3,
        "app.runtime"@,
        runtime,
    )
}

/// Sets the runtime, test framework and build plugin versions in the text of a build file.
pub fn update_pom_content(
    content: &str,
    runtime_version: &str,
    plugin_version: &str,
    munit_version: &str,
) -> (r: PropertyUpdate)
    ensures
        r.content@ == pom_result(content@, runtime_version@, plugin_version@, munit_version@),
        views(r.changes@) == pom_changes(
            content@,
            runtime_version@,
            plugin_version@,
            munit_version@,
        ),
        r.changed == (r.changes@.len() > 0),
{
    let u1 = update_property(content, "mule.version", runtime_version);
    let u2 = update_property(u1.content.as_str(), "munit.version", munit_version);
    let u3 = update_property(u2.content.as_str(), "mule.maven.plugin.version", plugin_version);
    let u4 = update_property(u3.content.as_str(), "app.runtime", runtime_version);
    let mut changes = u1.changes;
    let mut c2 = u2.changes;
    let mut c3 = u3.changes;
    let mut c4 = u4.changes;
    let ghost v1 = views(changes@);
    let ghost v2 = views(c2@);
    let ghost v3 = views(c3@);
    let ghost v4 = views(c4@);
    changes.append(&mut c2);
    changes.append(&mut c3);
    changes.append(&mut c4);
    assert(views(changes@) =~= v1 + v2 + v3 + v4);
    let changed = changes.len() > 0;
    PropertyUpdate { changed, changes, content: u4.content }
}

proof fn lemma_unchanged_from(s: Seq<char>, name: Seq<char>, new: Seq<char>, i: int)
    requires
        0 <= i <= s.len(),
        forall|j: int|
            #![trigger element_at(s, name, j)]
            element_at(s, name, j) ==> !element_changes(s, name, new, j),
    ensures
        rewrite_from(s, name, new, i) == s.subrange(i, s.len() as int),
        changes_from(s, name, new, i) == Seq::<Seq<char>>::empty(),
    decreases s.len() - i,
{
    if i < s.len() {
        if element_at(s, name, i) {
            let vs = value_start(name, i);
            let ve = value_end(s, name, i);
            let te = element_end(s, name, i);
            lemma_unchanged_from(s, name, new, te);
            assert(s.subrange(i, vs) == open_tag(name));
            assert(s.subrange(ve, te) == close_tag(name));
            assert(s.subrange(i, s.len() as int) =~= s.subrange(i, vs) + s.subrange(vs, ve)
                + s.subrange(ve, te) + s.subrange(te, s.len() as int));
        } else {
            lemma_unchanged_from(s, name, new, i + 1);
            assert(s.subrange(i, s.len() as int) =~= seq![s[i]] + s.subrange(
                i + 1,
                s.len() as int,
            ));
        }
    } else {
        assert(s.subrange(i, s.len() as int) =~= Seq::<char>::empty());
    }
}

/// Where every element `name` already holds `new` once trimmed, no change is recorded and
/// the text is kept byte for byte.
pub proof fn lemma_current_values_kept(s: Seq<char>, name: Seq<char>, new: Seq<char>)
    requires
        forall|j: int|
            #![trigger element_at(s, name, j)]
            element_at(s, name, j) ==> trim(element_value(s, name, j)) == new,
    ensures
        rewrite_property(s, name, new) == s,
        property_changes(s, name, new) == Seq::<Seq<char>>::empty(),
{
    lemma_unchanged_from(s, name, new, 0);
    assert(s.subrange(0, s.len() as int) =~= s);
}

} // verus!
