use vstd::prelude::*;

use crate::text::{seq_at, trim};
use crate::xml::{lemma_current_values_kept, pom_changes, pom_result};
use crate::xml::{
    changes_from, close_tag, element_at, element_changes, element_end, element_value, open_tag,
    property_changes, rewrite_from, rewrite_property, text_len, value_end, value_start,
};

verus! {

/// No `<` among `s[a..b]`.
pub open spec fn no_lt(s: Seq<char>, a: int, b: int) -> bool {
    forall|k: int| a <= k < b ==> s[k] != '<'
}

/// The first index from `j` on where an element `name` starts, or the length.
pub open spec fn next_element(s: Seq<char>, name: Seq<char>, j: int) -> int
    decreases s.len() - j,
{
    if 0 <= j < s.len() {
        if element_at(s, name, j) {
            j
        } else {
            next_element(s, name, j + 1)
        }
    } else {
        s.len() as int
    }
}

/// A name and a value that a property element can hold unchanged after one pass.
pub open spec fn stable_property(name: Seq<char>, new: Seq<char>) -> bool {
    &&& no_lt(name, 0, name.len() as int)
    &&& (name.len() > 0 ==> name[0] != '/')
    &&& no_lt(new, 0, new.len() as int)
    &&& trim(new) == new
}

proof fn lemma_text_len_bounds(s: Seq<char>, k: int)
    requires
        0 <= k <= s.len(),
    ensures
        k + text_len(s, k) <= s.len(),
        no_lt(s, k, k + text_len(s, k)),
        k + text_len(s, k) < s.len() ==> s[k + text_len(s, k)] == '<',
    decreases s.len() - k,
{
    if k < s.len() && s[k] != '<' {
        lemma_text_len_bounds(s, k + 1);
    }
}

proof fn lemma_text_len_exact(s: Seq<char>, k: int, m: int)
    requires
        0 <= k,
        0 <= m,
        k + m <= s.len(),
        no_lt(s, k, k + m),
        k + m == s.len() || s[k + m] == '<',
    ensures
        text_len(s, k) == m,
    decreases m,
{
    if m > 0 {
        lemma_text_len_exact(s, k + 1, m - 1);
    }
}

proof fn lemma_text_len_shift(a: Seq<char>, b: Seq<char>, k: int)
    requires
        0 <= k,
    ensures
        text_len(a + b, a.len() + k) == text_len(b, k),
    decreases b.len() - k,
{
    if k < b.len() && b[k] != '<' {
        lemma_text_len_shift(a, b, k + 1);
    }
}

proof fn lemma_seq_at_shift(a: Seq<char>, b: Seq<char>, k: int, p: Seq<char>)
    requires
        0 <= k,
    ensures
        seq_at(a + b, a.len() + k, p) == seq_at(b, k, p),
{
    if k + p.len() <= b.len() {
        assert((a + b).subrange(a.len() + k, a.len() + k + p.len()) =~= b.subrange(
            k,
            k + p.len(),
        ));
    }
}

/// The scan looks only forward: what precedes a position does not change what it finds there.
proof fn lemma_rewrite_shift(a: Seq<char>, b: Seq<char>, name: Seq<char>, new: Seq<char>, j: int)
    requires
        0 <= j,
    ensures
        rewrite_from(a + b, name, new, a.len() + j) == rewrite_from(b, name, new, j),
        changes_from(a + b, name, new, a.len() + j) == changes_from(b, name, new, j),
    decreases b.len() - j,
{
    if j < b.len() {
        let x = a + b;
        let o = a.len() as int;
        lemma_seq_at_shift(a, b, j, open_tag(name));
        lemma_text_len_shift(a, b, value_start(name, j));
        assert(value_start(name, o + j) == o + value_start(name, j));
        assert(value_end(x, name, o + j) == o + value_end(b, name, j));
        lemma_seq_at_shift(a, b, value_end(b, name, j), close_tag(name));
        if element_at(b, name, j) {
            lemma_text_len_bounds(b, value_start(name, j));
            assert(element_value(x, name, o + j) =~= element_value(b, name, j));
            lemma_rewrite_shift(a, b, name, new, element_end(b, name, j));
        } else {
            lemma_rewrite_shift(a, b, name, new, j + 1);
        }
    }
}

proof fn lemma_next_element(s: Seq<char>, name: Seq<char>, j: int)
    requires
        0 <= j <= s.len(),
    ensures
        j <= next_element(s, name, j) <= s.len(),
        next_element(s, name, j) < s.len() ==> element_at(s, name, next_element(s, name, j)),
        forall|m: int| j <= m < next_element(s, name, j) ==> !element_at(s, name, m),
    decreases s.len() - j,
{
    if j < s.len() && !element_at(s, name, j) {
        lemma_next_element(s, name, j + 1);
    }
}

/// Up to the next element, the scan copies the text.
proof fn lemma_copy(s: Seq<char>, name: Seq<char>, new: Seq<char>, i: int, k: int)
    requires
        0 <= i <= k <= s.len(),
        forall|m: int| i <= m < k ==> !element_at(s, name, m),
    ensures
        rewrite_from(s, name, new, i) == s.subrange(i, k) + rewrite_from(s, name, new, k),
    decreases k - i,
{
    if i < k {
        lemma_copy(s, name, new, i + 1, k);
        assert(!element_at(s, name, i));
        assert(s.subrange(i, k) =~= seq![s[i]] + s.subrange(i + 1, k));
        assert(rewrite_from(s, name, new, i) == seq![s[i]] + rewrite_from(s, name, new, i + 1));
    } else {
        assert(s.subrange(i, k) =~= Seq::<char>::empty());
    }
}

/// Where an element starts, the rewritten text starts with its opening tag.
proof fn lemma_rewrite_at_element(s: Seq<char>, name: Seq<char>, new: Seq<char>, k: int)
    requires
        0 <= k < s.len(),
        element_at(s, name, k),
    ensures
        rewrite_from(s, name, new, k).len() >= open_tag(name).len(),
        rewrite_from(s, name, new, k).subrange(0, open_tag(name).len() as int) == open_tag(name),
{
    let v = if element_changes(s, name, new, k) {
        new
    } else {
        element_value(s, name, k)
    };
    let r = rewrite_from(s, name, new, k);
    assert(r == open_tag(name) + v + close_tag(name) + rewrite_from(
        s,
        name,
        new,
        element_end(s, name, k),
    ));
    assert(r.subrange(0, open_tag(name).len() as int) =~= open_tag(name));
}

/// At an element, the rewritten text starts with an element that holds `new` once trimmed.
proof fn lemma_fixed_element(s: Seq<char>, name: Seq<char>, new: Seq<char>, i: int)
    requires
        0 <= i < s.len(),
        element_at(s, name, i),
        stable_property(name, new),
        rewrite_from(rewrite_from(s, name, new, element_end(s, name, i)), name, new, 0)
            == rewrite_from(s, name, new, element_end(s, name, i)),
        changes_from(rewrite_from(s, name, new, element_end(s, name, i)), name, new, 0)
            == Seq::<Seq<char>>::empty(),
    ensures
        rewrite_from(rewrite_from(s, name, new, i), name, new, 0) == rewrite_from(s, name, new, i),
        changes_from(rewrite_from(s, name, new, i), name, new, 0) == Seq::<Seq<char>>::empty(),
{
    let r = rewrite_from(s, name, new, i);
    let open = open_tag(name);
    let close = close_tag(name);
    let ol = open.len() as int;
    let cl = close.len() as int;
    let te = element_end(s, name, i);
    let vs = value_start(name, i);
    lemma_text_len_bounds(s, vs);
    let v = if element_changes(s, name, new, i) {
        new
    } else {
        element_value(s, name, i)
    };
    assert(no_lt(v, 0, v.len() as int));
    let piece = open + v + close;
    let rest = rewrite_from(s, name, new, te);
    assert(r == piece + rest);
    assert(r.subrange(0, ol) =~= open);
    assert(no_lt(r, ol, ol + v.len())) by {
        assert forall|k: int| ol <= k < ol + v.len() implies r[k] != '<' by {
            assert(r[k] == v[k - ol]);
        }
    }
    assert(r[ol + v.len()] == '<');
    lemma_text_len_exact(r, ol, v.len() as int);
    assert(value_end(r, name, 0) == ol + v.len());
    assert(r.subrange(ol + v.len(), ol + v.len() + cl) =~= close);
    assert(element_at(r, name, 0));
    assert(element_value(r, name, 0) =~= v);
    assert(!element_changes(r, name, new, 0));
    assert(element_end(r, name, 0) == piece.len());
    lemma_rewrite_shift(piece, rest, name, new, 0);
}

/// Where no element starts, none starts in the rewritten text either.
#[verifier::rlimit(40)]
proof fn lemma_no_new_element(s: Seq<char>, name: Seq<char>, new: Seq<char>, i: int)
    requires
        0 <= i < s.len(),
        !element_at(s, name, i),
        stable_property(name, new),
    ensures
        !element_at(rewrite_from(s, name, new, i), name, 0),
{
    let r = rewrite_from(s, name, new, i);
    let open = open_tag(name);
    let close = close_tag(name);
    let ol = open.len() as int;
    let cl = close.len() as int;
    let k = next_element(s, name, i + 1);
    lemma_next_element(s, name, i + 1);
    lemma_copy(s, name, new, i, k);
    let rk = rewrite_from(s, name, new, k);
    assert(r == s.subrange(i, k) + rk);
    if k < s.len() {
        lemma_rewrite_at_element(s, name, new, k);
    } else {
        assert(rk.len() == 0);
    }
    if element_at(r, name, 0) {
        // The opening tag lies in the copied text.
        assert(r.subrange(0, ol) == open);
        if k < s.len() && k - i < ol {
            assert(r[k - i] == rk[0]);
            assert(rk.subrange(0, ol)[0] == rk[0]);
            assert(r.subrange(0, ol)[k - i] == r[k - i]);
            if k - i <= name.len() {
                assert(open[k - i] == name[k - i - 1]);
            }
            assert(false);
        }
        assert(i + ol <= k);
        assert(s.subrange(i, i + ol) =~= open) by {
            assert forall|t: int| 0 <= t < ol implies s.subrange(i, i + ol)[t] == open[t] by {
                assert(r[t] == s[i + t]);
                assert(r.subrange(0, ol)[t] == r[t]);
            }
        }
        let vs = value_start(name, i);
        let e = value_end(s, name, i);
        lemma_text_len_bounds(s, vs);
        // The value ends in the copied text too.
        if k < e {
            assert(element_at(s, name, k));
            assert(s.subrange(k, k + ol)[0] == open[0]);
            if k < vs {
                assert(s.subrange(i, i + ol)[k - i] == s[k]);
                if k - i <= name.len() {
                    assert(open[k - i] == name[k - i - 1]);
                }
            }
            assert(false);
        }
        assert(no_lt(r, ol, e - i)) by {
            assert forall|t: int| ol <= t < e - i implies r[t] != '<' by {
                assert(r[t] == s[i + t]);
            }
        }
        if k > e {
            assert(r[e - i] == s[e]);
        } else if k < s.len() {
            assert(r[e - i] == rk[0]);
            assert(rk.subrange(0, ol)[0] == rk[0]);
        }
        lemma_text_len_exact(r, ol, e - i - ol);
        assert(value_end(r, name, 0) == e - i);
        assert(r.subrange(e - i, e - i + cl) == close);
        if k == e {
            assert(r[e - i + 1] == rk[1]);
            assert(rk.subrange(0, ol)[1] == rk[1]);
            assert(r.subrange(e - i, e - i + cl)[1] == r[e - i + 1]);
            if name.len() > 0 {
                assert(open[1] == name[0]);
            }
            assert(false);
        }
        // The closing tag lies in the copied text.
        if k < s.len() && k - e < cl {
            assert(r[k - i] == rk[0]);
            assert(rk.subrange(0, ol)[0] == rk[0]);
            assert(r.subrange(e - i, e - i + cl)[k - e] == r[k - i]);
            if k - e >= 2 && k - e - 2 < name.len() {
                assert(close[k - e] == name[k - e - 2]);
            }
            assert(false);
        }
        assert(s.subrange(e, e + cl) =~= close) by {
            assert forall|t: int| 0 <= t < cl implies s.subrange(e, e + cl)[t] == close[t] by {
                assert(r[e - i + t] == s[e + t]);
                assert(r.subrange(e - i, e - i + cl)[t] == r[e - i + t]);
            }
        }
        assert(element_at(s, name, i));
    }
}

/// One pass of the scan leaves text that a second pass keeps as it is.
proof fn lemma_fixed_from(s: Seq<char>, name: Seq<char>, new: Seq<char>, i: int)
    requires
        0 <= i <= s.len(),
        stable_property(name, new),
    ensures
        rewrite_from(rewrite_from(s, name, new, i), name, new, 0) == rewrite_from(s, name, new, i),
        changes_from(rewrite_from(s, name, new, i), name, new, 0) == Seq::<Seq<char>>::empty(),
    decreases s.len() - i,
{
    if i == s.len() {
        assert(rewrite_from(s, name, new, i).len() == 0);
    } else if element_at(s, name, i) {
        lemma_fixed_from(s, name, new, element_end(s, name, i));
        lemma_fixed_element(s, name, new, i);
    } else {
        lemma_fixed_from(s, name, new, i + 1);
        lemma_no_new_element(s, name, new, i);
        let r = rewrite_from(s, name, new, i);
        assert(r == seq![s[i]] + rewrite_from(s, name, new, i + 1));
        lemma_rewrite_shift(seq![s[i]], rewrite_from(s, name, new, i + 1), name, new, 0);
    }
}


/// A property name without `<` or `>` that does not start with `/`.
pub open spec fn plain_name(name: Seq<char>) -> bool {
    &&& no_lt(name, 0, name.len() as int)
    &&& (forall|k: int| 0 <= k < name.len() ==> name[k] != '>')
    &&& (name.len() > 0 ==> name[0] != '/')
}

/// A value that a property holds unchanged after a pass: without `<`, already trimmed.
pub open spec fn plain_value(v: Seq<char>) -> bool {
    no_lt(v, 0, v.len() as int) && trim(v) == v
}

/// Every element `name` of `t` holds `v` once trimmed.
pub open spec fn settled(t: Seq<char>, name: Seq<char>, v: Seq<char>) -> bool {
    forall|j: int|
        #![trigger element_at(t, name, j)]
        element_at(t, name, j) ==> trim(element_value(t, name, j)) == v
}

proof fn lemma_element_shift(a: Seq<char>, b: Seq<char>, name: Seq<char>, j: int)
    requires
        0 <= j,
    ensures
        element_at(a + b, name, a.len() + j) == element_at(b, name, j),
        element_at(b, name, j) ==> element_value(a + b, name, a.len() + j) == element_value(
            b,
            name,
            j,
        ),
{
    let o = a.len() as int;
    lemma_seq_at_shift(a, b, j, open_tag(name));
    lemma_text_len_shift(a, b, value_start(name, j));
    assert(value_end(a + b, name, o + j) == o + value_end(b, name, j));
    lemma_seq_at_shift(a, b, value_end(b, name, j), close_tag(name));
    if element_at(b, name, j) {
        lemma_text_len_bounds(b, value_start(name, j));
        assert(element_value(a + b, name, o + j) =~= element_value(b, name, j));
    }
}

/// Two opening tags of plain names that both start a text are the same tag.
proof fn lemma_open_tags_agree(r: Seq<char>, x: Seq<char>, y: Seq<char>)
    requires
        plain_name(x),
        plain_name(y),
        seq_at(r, 0, open_tag(x)),
        seq_at(r, 0, open_tag(y)),
    ensures
        x == y,
{
    let ox = open_tag(x);
    let oy = open_tag(y);
    assert forall|j: int| 0 <= j < x.len() && j < y.len() implies x[j] == y[j] by {
        assert(r.subrange(0, ox.len() as int)[j + 1] == r[j + 1]);
        assert(r.subrange(0, oy.len() as int)[j + 1] == r[j + 1]);
    }
    if x.len() < y.len() {
        assert(r.subrange(0, ox.len() as int)[x.len() as int + 1] == r[x.len() as int + 1]);
        assert(r.subrange(0, oy.len() as int)[x.len() as int + 1] == r[x.len() as int + 1]);
        assert(false);
    } else if y.len() < x.len() {
        assert(r.subrange(0, ox.len() as int)[y.len() as int + 1] == r[y.len() as int + 1]);
        assert(r.subrange(0, oy.len() as int)[y.len() as int + 1] == r[y.len() as int + 1]);
        assert(false);
    }
    assert(x =~= y);
}

/// Where no element `b` starts, an element `a` of the rewritten text is one of the text itself,
/// with the same value.
#[verifier::rlimit(60)]
proof fn lemma_copied_element(s: Seq<char>, a: Seq<char>, b: Seq<char>, new: Seq<char>, i: int)
    requires
        0 <= i < s.len(),
        !element_at(s, b, i),
        plain_name(a),
        plain_name(b),
        element_at(rewrite_from(s, b, new, i), a, 0),
    ensures
        element_at(s, a, i),
        element_value(rewrite_from(s, b, new, i), a, 0) == element_value(s, a, i),
{
    let r = rewrite_from(s, b, new, i);
    let open = open_tag(a);
    let close = close_tag(a);
    let ol = open.len() as int;
    let cl = close.len() as int;
    let k = next_element(s, b, i + 1);
    lemma_next_element(s, b, i + 1);
    lemma_copy(s, b, new, i, k);
    let rk = rewrite_from(s, b, new, k);
    assert(r == s.subrange(i, k) + rk);
    if k < s.len() {
        lemma_rewrite_at_element(s, b, new, k);
        assert(rk.subrange(0, open_tag(b).len() as int)[0] == rk[0]);
        assert(rk.subrange(0, open_tag(b).len() as int)[1] == rk[1]);
    } else {
        assert(rk.len() == 0);
    }
    assert(r.subrange(0, ol) == open);
    if k < s.len() && k - i < ol {
        assert(r[k - i] == rk[0]);
        assert(r.subrange(0, ol)[k - i] == r[k - i]);
        if k - i <= a.len() {
            assert(open[k - i] == a[k - i - 1]);
        }
        assert(false);
    }
    assert(s.subrange(i, i + ol) =~= open) by {
        assert forall|t: int| 0 <= t < ol implies s.subrange(i, i + ol)[t] == open[t] by {
            assert(r[t] == s[i + t]);
            assert(r.subrange(0, ol)[t] == r[t]);
        }
    }
    let vs = value_start(a, i);
    let e = value_end(s, a, i);
    lemma_text_len_bounds(s, vs);
    if k < e {
        assert(element_at(s, b, k));
        assert(s.subrange(k, k + open_tag(b).len())[0] == open_tag(b)[0]);
        if k < vs {
            assert(s.subrange(i, i + ol)[k - i] == s[k]);
            if k - i <= a.len() {
                assert(open[k - i] == a[k - i - 1]);
            }
        }
        assert(false);
    }
    assert(no_lt(r, ol, e - i)) by {
        assert forall|t: int| ol <= t < e - i implies r[t] != '<' by {
            assert(r[t] == s[i + t]);
        }
    }
    if k > e {
        assert(r[e - i] == s[e]);
    } else if k < s.len() {
        assert(r[e - i] == rk[0]);
    }
    lemma_text_len_exact(r, ol, e - i - ol);
    assert(value_end(r, a, 0) == e - i);
    assert(r.subrange(e - i, e - i + cl) == close);
    if k == e {
        assert(r[e - i + 1] == rk[1]);
        assert(r.subrange(e - i, e - i + cl)[1] == r[e - i + 1]);
        if b.len() > 0 {
            assert(open_tag(b)[1] == b[0]);
        }
        assert(false);
    }
    if k < s.len() && k - e < cl {
        assert(r[k - i] == rk[0]);
        assert(r.subrange(e - i, e - i + cl)[k - e] == r[k - i]);
        if k - e >= 2 && k - e - 2 < a.len() {
            assert(close[k - e] == a[k - e - 2]);
        }
        assert(false);
    }
    assert(s.subrange(e, e + cl) =~= close) by {
        assert forall|t: int| 0 <= t < cl implies s.subrange(e, e + cl)[t] == close[t] by {
            assert(r[e - i + t] == s[e + t]);
            assert(r.subrange(e - i, e - i + cl)[t] == r[e - i + t]);
        }
    }
    assert(element_at(s, a, i));
    assert(element_value(r, a, 0) =~= element_value(s, a, i)) by {
        assert forall|t: int| 0 <= t < e - i - ol implies element_value(r, a, 0)[t]
            == element_value(s, a, i)[t] by {
            assert(r[ol + t] == s[i + ol + t]);
        }
    }
}

/// Inside a rewritten element `b`, an element `a` can only start where it starts, and only
/// when `a` is `b`; its value then holds `new` once trimmed.
proof fn lemma_piece_elements(
    piece: Seq<char>,
    rest: Seq<char>,
    a: Seq<char>,
    b: Seq<char>,
    v: Seq<char>,
    new: Seq<char>,
    p: int,
)
    requires
        piece == open_tag(b) + v + close_tag(b),
        plain_name(a),
        plain_name(b),
        no_lt(v, 0, v.len() as int),
        trim(v) == new,
        0 <= p < piece.len(),
        element_at(piece + rest, a, p),
    ensures
        p == 0,
        a == b,
        trim(element_value(piece + rest, a, p)) == new,
{
    let r = piece + rest;
    let ob = open_tag(b);
    let cb = close_tag(b);
    let oa = open_tag(a);
    assert(r.subrange(p, p + oa.len())[0] == r[p]);
    assert(r[p] == '<');
    if 0 < p < ob.len() {
        assert(r[p] == ob[p]);
        if p <= b.len() {
            assert(ob[p] == b[p - 1]);
        }
        assert(false);
    }
    if ob.len() <= p < ob.len() + v.len() {
        assert(r[p] == v[p - ob.len()]);
        assert(false);
    }
    if p == ob.len() + v.len() {
        assert(r[p + 1] == cb[1]);
        assert(r.subrange(p, p + oa.len())[1] == r[p + 1]);
        if a.len() > 0 {
            assert(oa[1] == a[0]);
        }
        assert(false);
    }
    if p > ob.len() + v.len() {
        let q = p - ob.len() - v.len();
        assert(r[p] == cb[q]);
        if 2 <= q && q - 2 < b.len() {
            assert(cb[q] == b[q - 2]);
        }
        assert(false);
    }
    assert(p == 0);
    assert(r.subrange(0, ob.len() as int) =~= ob);
    lemma_open_tags_agree(r, a, b);
    let ol = ob.len() as int;
    assert(no_lt(r, ol, ol + v.len())) by {
        assert forall|k: int| ol <= k < ol + v.len() implies r[k] != '<' by {
            assert(r[k] == v[k - ol]);
        }
    }
    assert(r[ol + v.len()] == '<');
    lemma_text_len_exact(r, ol, v.len() as int);
    assert(element_value(r, a, 0) =~= v);
}

/// After a pass over property `b`, every element `a` holds `va` once trimmed: for `a` equal to
/// `b` with `va` its new value, and for another `a` where the text was settled already.
proof fn lemma_settled_from(
    s: Seq<char>,
    a: Seq<char>,
    va: Seq<char>,
    b: Seq<char>,
    vb: Seq<char>,
    i: int,
)
    requires
        0 <= i <= s.len(),
        plain_name(a),
        plain_name(b),
        plain_value(vb),
        a == b ==> va == vb,
        a != b ==> settled(s, a, va),
    ensures
        settled(rewrite_from(s, b, vb, i), a, va),
    decreases s.len() - i,
{
    let r = rewrite_from(s, b, vb, i);
    if i == s.len() {
        assert(r.len() == 0);
        return;
    }
    if element_at(s, b, i) {
        let te = element_end(s, b, i);
        lemma_settled_from(s, a, va, b, vb, te);
        lemma_text_len_bounds(s, value_start(b, i));
        let v = if element_changes(s, b, vb, i) {
            vb
        } else {
            element_value(s, b, i)
        };
        let piece = open_tag(b) + v + close_tag(b);
        let rest = rewrite_from(s, b, vb, te);
        assert(r == piece + rest);
        assert forall|p: int| #[trigger] element_at(r, a, p) implies trim(element_value(r, a, p))
            == va by {
            if p >= piece.len() {
                lemma_element_shift(piece, rest, a, p - piece.len());
            } else {
                lemma_piece_elements(piece, rest, a, b, v, vb, p);
            }
        }
    } else {
        lemma_settled_from(s, a, va, b, vb, i + 1);
        let rest = rewrite_from(s, b, vb, i + 1);
        assert(r == seq![s[i]] + rest);
        assert forall|p: int| #[trigger] element_at(r, a, p) implies trim(element_value(r, a, p))
            == va by {
            if p >= 1 {
                lemma_element_shift(seq![s[i]], rest, a, p - 1);
            } else {
                lemma_copied_element(s, a, b, vb, i);
            }
        }
    }
}

/// Setting a property twice gives what setting it once gives, and the second pass reports no
/// change, for a name without `<` that does not start with `/`, and a value without `<` that
/// is already trimmed.
pub proof fn lemma_update_property_idempotent(s: Seq<char>, name: Seq<char>, new: Seq<char>)
    requires
        stable_property(name, new),
    ensures
        rewrite_property(rewrite_property(s, name, new), name, new) == rewrite_property(
            s,
            name,
            new,
        ),
        property_changes(rewrite_property(s, name, new), name, new) == Seq::<Seq<char>>::empty(),
{
    lemma_fixed_from(s, name, new, 0);
}

proof fn lemma_pom_names()
    ensures
        plain_name("mule.version"@),
        plain_name("munit.version"@),
        plain_name("mule.maven.plugin.version"@),
        plain_name("app.runtime"@),
        "mule.version"@.len() == 12,
        "munit.version"@.len() == 13,
        "mule.maven.plugin.version"@.len() == 25,
        "app.runtime"@.len() == 11,
{
    reveal_strlit("mule.version");
    reveal_strlit("munit.version");
    reveal_strlit("mule.maven.plugin.version");
    reveal_strlit("app.runtime");
}

/// Updating a build file a second time, with the same versions, keeps its text and reports no
/// change, for versions without `<` that are already trimmed.
pub proof fn lemma_pom_update_idempotent(
    s: Seq<char>,
    runtime: Seq<char>,
    plugin: Seq<char>,
    munit: Seq<char>,
)
    requires
        plain_value(runtime),
        plain_value(plugin),
        plain_value(munit),
    ensures
        pom_result(pom_result(s, runtime, plugin, munit), runtime, plugin, munit) == pom_result(
            s,
            runtime,
            plugin,
            munit,
        ),
        pom_changes(pom_result(s, runtime, plugin, munit), runtime, plugin, munit)
            == Seq::<Seq<char>>::empty(),
{
    lemma_pom_names();
    let n1 = "mule.version"@;
    let n2 = "munit.version"@;
    let n3 = "mule.maven.plugin.version"@;
    let n4 = "app.runtime"@;
    let u1 = rewrite_property(s, n1, runtime);
    let u2 = rewrite_property(u1, n2, munit);
    let u3 = rewrite_property(u2, n3, plugin);
    let u4 = rewrite_property(u3, n4, runtime);
    lemma_settled_from(s, n1, runtime, n1, runtime, 0);
    lemma_settled_from(u1, n2, munit, n2, munit, 0);
    lemma_settled_from(u1, n1, runtime, n2, munit, 0);
    lemma_settled_from(u2, n3, plugin, n3, plugin, 0);
    lemma_settled_from(u2, n2, munit, n3, plugin, 0);
    lemma_settled_from(u2, n1, runtime, n3, plugin, 0);
    lemma_settled_from(u3, n4, runtime, n4, runtime, 0);
    lemma_settled_from(u3, n3, plugin, n4, runtime, 0);
    lemma_settled_from(u3, n2, munit, n4, runtime, 0);
    lemma_settled_from(u3, n1, runtime, n4, runtime, 0);
    lemma_current_values_kept(u4, n1, runtime);
    lemma_current_values_kept(u4, n2, munit);
    lemma_current_values_kept(u4, n3, plugin);
    lemma_current_values_kept(u4, n4, runtime);
    assert(pom_changes(u4, runtime, plugin, munit) =~= Seq::<Seq<char>>::empty());
}

} // verus!
