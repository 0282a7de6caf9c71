//! A flat model of JSON objects. Each member's value is `null`, a string, or the compact
//! JSON text of any other value. Objects are read through `serde_json`; the library writes
//! them back itself, in the same compact form.
use vstd::prelude::*;
use vstd::string::*;
use crate::protocol::binary_codec::{json_quote, json_string};
use crate::text::{owned, push_char, push_str, str_eq, str_lt, text_lt};
use crate::vecmap::{lemma_filter_step, retain_vec};

verus! {

/// A member value: `null`, a string, or the compact JSON text of any other value.
pub enum JsonLeaf {
    Null,
    Str(String),
    Raw(String),
}

/// What a `JsonLeaf` holds, as text.
pub enum LeafView {
    Null,
    Str(Seq<char>),
    Raw(Seq<char>),
}

impl View for JsonLeaf {
    type V = LeafView;

    open spec fn view(&self) -> LeafView {
        match self {
            JsonLeaf::Null => LeafView::Null,
            JsonLeaf::Str(s) => LeafView::Str(s@),
            JsonLeaf::Raw(t) => LeafView::Raw(t@),
        }
    }
}

/// A member as text.
pub open spec fn entry_view(e: (String, JsonLeaf)) -> (Seq<char>, LeafView) {
    (e.0@, e.1@)
}

/// The members as text.
pub open spec fn members_view(s: Seq<(String, JsonLeaf)>) -> Seq<(Seq<char>, LeafView)> {
    s.map_values(|e: (String, JsonLeaf)| entry_view(e))
}

/// The items of an array as text.
pub open spec fn items_view(s: Seq<JsonLeaf>) -> Seq<LeafView> {
    s.map_values(|l: JsonLeaf| l@)
}

/// Name for the members of the JSON object `text`, in the order `serde_json` keeps them;
/// `None` when `text` is not JSON or not an object.
pub uninterp spec fn json_object_of(text: Seq<char>) -> Option<Seq<(Seq<char>, LeafView)>>;

/// Name for the items of the JSON array `text`; `None` when `text` is not JSON or not an array.
pub uninterp spec fn json_array_of(text: Seq<char>) -> Option<Seq<LeafView>>;

/// Parses `text` with `serde_json::from_str::<serde_json::Value>` and, when it is an object,
/// gives its members in the map's order, each value as null, string, or its compact text
/// (`Value::to_string`). The result is named by `json_object_of`.
#[verifier::external_body]
pub(crate) fn parse_object(text: &str) -> (r: Option<Vec<(String, JsonLeaf)>>)
    ensures
        match r {
            Some(v) => json_object_of(text@) == Some(members_view(v@)),
            None => json_object_of(text@) is None,
        },
{
    match serde_json::from_str::<serde_json::Value>(text) {
        Ok(serde_json::Value::Object(m)) => {
            let mut out = Vec::new();
            for (k, v) in m {
                out.push((k, match v {
                    serde_json::Value::Null => JsonLeaf::Null,
                    serde_json::Value::String(s) => JsonLeaf::Str(s),
                    other => JsonLeaf::Raw(other.to_string()),
                }));
            }
            Some(out)
        },
        _ => None,
    }
}

/// Parses `text` with `serde_json::from_str::<serde_json::Value>` and, when it is an array,
/// gives its items as null, string, or compact text. The result is named by `json_array_of`.
#[verifier::external_body]
pub(crate) fn parse_array(text: &str) -> (r: Option<Vec<JsonLeaf>>)
    ensures
        match r {
            Some(v) => json_array_of(text@) == Some(items_view(v@)),
            None => json_array_of(text@) is None,
        },
{
    match serde_json::from_str::<serde_json::Value>(text) {
        Ok(serde_json::Value::Array(a)) => {
            let mut out = Vec::new();
            for v in a {
                out.push(match v {
                    serde_json::Value::Null => JsonLeaf::Null,
                    serde_json::Value::String(s) => JsonLeaf::Str(s),
                    other => JsonLeaf::Raw(other.to_string()),
                });
            }
            Some(out)
        },
        _ => None,
    }
}

// ===================== lookups and updates, as text =====================

/// The value of the last member named `k`.
pub open spec fn vmember(s: Seq<(Seq<char>, LeafView)>, k: Seq<char>) -> Option<LeafView>
    decreases s.len(),
{
    if s.len() == 0 {
        None
    } else if s.last().0 == k {
        Some(s.last().1)
    } else {
        vmember(s.drop_last(), k)
    }
}

/// The string value of member `k`, when it is a string.
pub open spec fn vstr(s: Seq<(Seq<char>, LeafView)>, k: Seq<char>) -> Option<Seq<char>> {
    match vmember(s, k) {
        Some(LeafView::Str(v)) => Some(v),
        _ => None,
    }
}

/// Index of the last member named `k`.
pub open spec fn last_index(s: Seq<(Seq<char>, LeafView)>, k: Seq<char>) -> Option<int>
    decreases s.len(),
{
    if s.len() == 0 {
        None
    } else if s.last().0 == k {
        Some(s.len() - 1)
    } else {
        last_index(s.drop_last(), k)
    }
}

/// Where a new member named `k` goes: before the first member whose name comes after `k`.
pub open spec fn sorted_pos(s: Seq<(Seq<char>, LeafView)>, k: Seq<char>) -> nat
    decreases s.len(),
{
    if s.len() == 0 {
        0
    } else if text_lt(k, s[0].0) {
        0
    } else {
        1 + sorted_pos(s.drop_first(), k)
    }
}

/// `s` with member `k` set to `v`: replaced where it is (its last occurrence), else inserted
/// in name order.
pub open spec fn put(s: Seq<(Seq<char>, LeafView)>, k: Seq<char>, v: LeafView) -> Seq<(Seq<char>, LeafView)> {
    match last_index(s, k) {
        Some(i) => s.update(i, (k, v)),
        None => s.insert(sorted_pos(s, k) as int, (k, v)),
    }
}

/// Predicate: a member is not named `k`.
pub open spec fn named_other(k: Seq<char>) -> spec_fn((Seq<char>, LeafView)) -> bool {
    |e: (Seq<char>, LeafView)| e.0 != k
}

/// `s` without the members named `k`.
pub open spec fn without(s: Seq<(Seq<char>, LeafView)>, k: Seq<char>) -> Seq<(Seq<char>, LeafView)> {
    s.filter(named_other(k))
}

/// Predicate on members as stored: not named `k`.
pub open spec fn stored_other(k: Seq<char>) -> spec_fn((String, JsonLeaf)) -> bool {
    |e: (String, JsonLeaf)| e.0@ != k
}

proof fn lemma_last_index(s: Seq<(Seq<char>, LeafView)>, k: Seq<char>)
    ensures
        match last_index(s, k) {
            Some(i) => 0 <= i < s.len() && s[i].0 == k && vmember(s, k) == Some(s[i].1)
                && forall|j: int| i < j < s.len() ==> s[j].0 != k,
            None => vmember(s, k) is None && forall|j: int| 0 <= j < s.len() ==> s[j].0 != k,
        },
    decreases s.len(),
{
    if s.len() > 0 {
        lemma_last_index(s.drop_last(), k);
        assert forall|j: int| 0 <= j < s.len() - 1 implies s.drop_last()[j] == s[j] by {}
    }
}

proof fn lemma_sorted_pos(s: Seq<(Seq<char>, LeafView)>, k: Seq<char>)
    ensures
        sorted_pos(s, k) <= s.len(),
    decreases s.len(),
{
    if s.len() > 0 {
        lemma_sorted_pos(s.drop_first(), k);
    }
}

/// Looking up after an insertion of a name not present.
proof fn lemma_vmember_insert(s: Seq<(Seq<char>, LeafView)>, p: int, e: (Seq<char>, LeafView), o: Seq<char>)
    requires
        0 <= p <= s.len(),
        vmember(s, e.0) is None,
    ensures
        vmember(s.insert(p, e), o) == if o == e.0 { Some(e.1) } else { vmember(s, o) },
    decreases s.len(),
{
    let t = s.insert(p, e);
    if p == s.len() {
        assert(t.drop_last() =~= s);
        assert(t.last() == e);
    } else {
        assert(t.last() == s.last());
        assert(t.drop_last() =~= s.drop_last().insert(p, e));
        lemma_vmember_insert(s.drop_last(), p, e, o);
    }
}

/// Looking up after replacing the last member of a name.
proof fn lemma_vmember_update(s: Seq<(Seq<char>, LeafView)>, i: int, e: (Seq<char>, LeafView), o: Seq<char>)
    requires
        0 <= i < s.len(),
        s[i].0 == e.0,
        forall|j: int| i < j < s.len() ==> s[j].0 != e.0,
    ensures
        vmember(s.update(i, e), o) == if o == e.0 { Some(e.1) } else { vmember(s, o) },
    decreases s.len(),
{
    let t = s.update(i, e);
    if i == s.len() - 1 {
        assert(t.drop_last() =~= s.drop_last());
    } else {
        assert(t.last() == s.last());
        assert(t.drop_last() =~= s.drop_last().update(i, e));
        lemma_vmember_update(s.drop_last(), i, e, o);
    }
}

/// After `put`, member `k` holds `v` and the others are unchanged.
pub proof fn lemma_vmember_put(s: Seq<(Seq<char>, LeafView)>, k: Seq<char>, v: LeafView, o: Seq<char>)
    ensures
        vmember(put(s, k, v), o) == if o == k { Some(v) } else { vmember(s, o) },
{
    lemma_last_index(s, k);
    match last_index(s, k) {
        Some(i) => lemma_vmember_update(s, i, (k, v), o),
        None => {
            lemma_sorted_pos(s, k);
            lemma_vmember_insert(s, sorted_pos(s, k) as int, (k, v), o);
        },
    }
}

/// After removing the members named `k`, none is left and the others are unchanged.
pub proof fn lemma_vmember_without(s: Seq<(Seq<char>, LeafView)>, k: Seq<char>, o: Seq<char>)
    ensures
        vmember(without(s, k), o) == if o == k { None } else { vmember(s, o) },
    decreases s.len(),
{
    if s.len() > 0 {
        lemma_vmember_without(s.drop_last(), k, o);
        lemma_filter_step(s, named_other(k));
    }
}

/// Removing stored members commutes with reading them as text.
proof fn lemma_members_view_filter(s: Seq<(String, JsonLeaf)>, k: Seq<char>)
    ensures
        members_view(s.filter(stored_other(k))) == without(members_view(s), k),
    decreases s.len(),
{
    if s.len() == 0 {
        assert(s.filter(stored_other(k)) =~= Seq::<(String, JsonLeaf)>::empty()) by {
            reveal(Seq::filter);
        }
        assert(members_view(s) =~= Seq::<(Seq<char>, LeafView)>::empty());
        assert(without(members_view(s), k) =~= Seq::<(Seq<char>, LeafView)>::empty()) by {
            reveal(Seq::filter);
        }
    } else {
        lemma_members_view_filter(s.drop_last(), k);
        lemma_filter_step(s, stored_other(k));
        lemma_filter_step(members_view(s), named_other(k));
        assert(members_view(s).drop_last() =~= members_view(s.drop_last()));
        assert(members_view(s).last() == entry_view(s.last()));
        if s.last().0@ != k {
            assert(members_view(s.drop_last().filter(stored_other(k)).push(s.last())) =~= members_view(
                s.drop_last().filter(stored_other(k)),
            ).push(entry_view(s.last())));
        }
    }
}

/// A member that is present is found.
pub proof fn lemma_vmember_present(s: Seq<(Seq<char>, LeafView)>, i: int)
    requires
        0 <= i < s.len(),
    ensures
        vmember(s, s[i].0) is Some,
    decreases s.len(),
{
    if i < s.len() - 1 && s.last().0 != s[i].0 {
        assert(s.drop_last()[i] == s[i]);
        lemma_vmember_present(s.drop_last(), i);
    }
}

/// A name that is found is the name of some member.
pub proof fn lemma_vmember_some_index(s: Seq<(Seq<char>, LeafView)>, k: Seq<char>)
    ensures
        vmember(s, k) is Some ==> exists|j: int| 0 <= j < s.len() && (#[trigger] s[j]).0 == k,
    decreases s.len(),
{
    if s.len() > 0 {
        lemma_vmember_some_index(s.drop_last(), k);
        if s.last().0 == k {
            assert(s[s.len() - 1].0 == k);
        } else if vmember(s, k) is Some {
            let j = choose|j: int| 0 <= j < s.drop_last().len() && (#[trigger] s.drop_last()[j]).0 == k;
            assert(s[j] == s.drop_last()[j]);
        }
    }
}

// ===================== exec operations =====================

/// A copy of a member value.
pub fn copy_leaf(l: &JsonLeaf) -> (r: JsonLeaf)
    ensures
        r@ == l@,
{
    match l {
        JsonLeaf::Null => JsonLeaf::Null,
        JsonLeaf::Str(s) => JsonLeaf::Str(owned(s.as_str())),
        JsonLeaf::Raw(t) => JsonLeaf::Raw(owned(t.as_str())),
    }
}

/// Whether two member values are the same.
pub fn leaf_eq(a: &JsonLeaf, b: &JsonLeaf) -> (r: bool)
    ensures
        r == (a@ == b@),
{
    match (a, b) {
        (JsonLeaf::Null, JsonLeaf::Null) => true,
        (JsonLeaf::Str(x), JsonLeaf::Str(y)) => str_eq(x.as_str(), y.as_str()),
        (JsonLeaf::Raw(x), JsonLeaf::Raw(y)) => str_eq(x.as_str(), y.as_str()),
        _ => false,
    }
}

/// A copy of a list of members.
pub fn copy_members(ms: &Vec<(String, JsonLeaf)>) -> (r: Vec<(String, JsonLeaf)>)
    ensures
        members_view(r@) == members_view(ms@),
{
    let mut out: Vec<(String, JsonLeaf)> = Vec::new();
    let mut i: usize = 0;
    while i < ms.len()
        invariant
            i <= ms.len(),
            members_view(out@) == members_view(ms@.take(i as int)),
        decreases ms.len() - i,
    {
        let e = (owned(ms[i].0.as_str()), copy_leaf(&ms[i].1));
        let ghost before = out@;
        out.push(e);
        proof {
            assert(members_view(out@) =~= members_view(before).push(entry_view(e)));
            assert(members_view(ms@.take(i + 1)) =~= members_view(ms@.take(i as int)).push(entry_view(ms@[i as int])));
        }
        i = i + 1;
    }
    assert(ms@.take(ms.len() as int) =~= ms@);
    out
}

/// Index of the last member named `k`.
pub fn find_member(ms: &Vec<(String, JsonLeaf)>, k: &str) -> (r: Option<usize>)
    ensures
        match r {
            Some(i) => last_index(members_view(ms@), k@) == Some(i as int),
            None => last_index(members_view(ms@), k@) is None,
        },
{
    let ghost view = members_view(ms@);
    let mut found: Option<usize> = None;
    let mut i: usize = 0;
    assert(view.take(0) =~= Seq::<(Seq<char>, LeafView)>::empty());
    while i < ms.len()
        invariant
            i <= ms.len(),
            view == members_view(ms@),
            match found {
                Some(j) => last_index(view.take(i as int), k@) == Some(j as int),
                None => last_index(view.take(i as int), k@) is None,
            },
        decreases ms.len() - i,
    {
        assert(view.take(i + 1).drop_last() =~= view.take(i as int));
        assert(view.take(i + 1).last() == entry_view(ms@[i as int]));
        if str_eq(ms[i].0.as_str(), k) {
            found = Some(i);
        }
        i = i + 1;
    }
    assert(view.take(ms.len() as int) =~= view);
    found
}

/// The value of the last member named `k`.
pub fn get_member(ms: &Vec<(String, JsonLeaf)>, k: &str) -> (r: Option<JsonLeaf>)
    ensures
        match r {
            Some(l) => vmember(members_view(ms@), k@) == Some(l@),
            None => vmember(members_view(ms@), k@) is None,
        },
{
    proof {
        lemma_last_index(members_view(ms@), k@);
    }
    match find_member(ms, k) {
        Some(i) => Some(copy_leaf(&ms[i].1)),
        None => None,
    }
}

/// The value of member `k` when it is a string.
pub fn get_str(ms: &Vec<(String, JsonLeaf)>, k: &str) -> (r: Option<String>)
    ensures
        match r {
            Some(v) => vstr(members_view(ms@), k@) == Some(v@),
            None => vstr(members_view(ms@), k@) is None,
        },
{
    match get_member(ms, k) {
        Some(JsonLeaf::Str(s)) => Some(s),
        _ => None,
    }
}

/// Where a new member named `k` goes.
fn insert_pos(ms: &Vec<(String, JsonLeaf)>, k: &str) -> (r: usize)
    ensures
        r as nat == sorted_pos(members_view(ms@), k@),
        r <= ms.len(),
{
    let ghost view = members_view(ms@);
    let mut i: usize = 0;
    assert(view.skip(0) =~= view);
    while i < ms.len()
        invariant
            i <= ms.len(),
            view == members_view(ms@),
            sorted_pos(view, k@) == i + sorted_pos(view.skip(i as int), k@),
        decreases ms.len() - i,
    {
        assert(view.skip(i as int)[0] == entry_view(ms@[i as int]));
        if str_lt(k, ms[i].0.as_str()) {
            return i;
        }
        assert(view.skip(i as int).drop_first() =~= view.skip(i + 1));
        i = i + 1;
    }
    assert(view.skip(i as int).len() == 0);
    i
}

/// Sets member `k` to `v`: replaced where it is, else inserted in name order.
pub fn set_member(ms: &mut Vec<(String, JsonLeaf)>, k: &str, v: JsonLeaf)
    ensures
        members_view(final(ms)@) == put(members_view(old(ms)@), k@, v@),
{
    let ghost view = members_view(ms@);
    let e = (owned(k), v);
    proof {
        lemma_last_index(view, k@);
    }
    match find_member(ms, k) {
        Some(i) => {
            let ghost before = ms@;
            ms.set(i, e);
            assert(members_view(ms@) =~= members_view(before).update(i as int, (k@, e.1@)));
        },
        None => {
            let p = insert_pos(ms, k);
            let ghost before = ms@;
            ms.insert(p, e);
            assert(members_view(ms@) =~= members_view(before).insert(p as int, (k@, e.1@)));
        },
    }
}

/// Removes the members named `k`.
pub fn remove_member(ms: &mut Vec<(String, JsonLeaf)>, k: &str)
    ensures
        members_view(final(ms)@) == without(members_view(old(ms)@), k@),
{
    let ghost before = ms@;
    let keep = |e: &(String, JsonLeaf)| -> (b: bool)
        ensures
            b == stored_other(k@)(*e),
        { !str_eq(e.0.as_str(), k) };
    retain_vec(ms, keep, Ghost(stored_other(k@)));
    proof {
        lemma_members_view_filter(before, k@);
    }
}

// ===================== writing =====================

/// The compact JSON text of a value.
pub open spec fn leaf_text(l: LeafView) -> Seq<char> {
    match l {
        LeafView::Null => seq!['n', 'u', 'l', 'l'],
        LeafView::Str(s) => json_string(s),
        LeafView::Raw(t) => t,
    }
}

/// `"name":value`.
pub open spec fn entry_text(e: (Seq<char>, LeafView)) -> Seq<char> {
    json_string(e.0) + seq![':'] + leaf_text(e.1)
}

/// The members, comma-separated.
pub open spec fn members_text(s: Seq<(Seq<char>, LeafView)>) -> Seq<char>
    decreases s.len(),
{
    if s.len() == 0 {
        Seq::empty()
    } else if s.len() == 1 {
        entry_text(s[0])
    } else {
        members_text(s.drop_last()) + seq![','] + entry_text(s.last())
    }
}

/// The compact JSON text of an object with members `s`, in that order.
pub open spec fn object_text(s: Seq<(Seq<char>, LeafView)>) -> Seq<char> {
    seq!['{'] + members_text(s) + seq!['}']
}

/// The items, comma-separated.
pub open spec fn items_text(s: Seq<LeafView>) -> Seq<char>
    decreases s.len(),
{
    if s.len() == 0 {
        Seq::empty()
    } else if s.len() == 1 {
        leaf_text(s[0])
    } else {
        items_text(s.drop_last()) + seq![','] + leaf_text(s.last())
    }
}

/// The compact JSON text of an array with items `s`.
pub open spec fn array_text(s: Seq<LeafView>) -> Seq<char> {
    seq!['['] + items_text(s) + seq![']']
}

/// Appends the text of a value.
pub fn push_leaf(out: &mut String, l: &JsonLeaf)
    ensures
        final(out)@ == old(out)@ + leaf_text(l@),
{
    match l {
        JsonLeaf::Null => {
            let ghost start = out@;
            push_char(out, 'n');
            push_char(out, 'u');
            push_char(out, 'l');
            push_char(out, 'l');
            assert(out@ =~= start + seq!['n', 'u', 'l', 'l']);
        },
        JsonLeaf::Str(s) => {
            let q = json_quote(s.as_str());
            push_str(out, q.as_str());
        },
        JsonLeaf::Raw(t) => {
            push_str(out, t.as_str());
        },
    }
}

/// Appends `"name":value`.
fn push_entry(out: &mut String, e: &(String, JsonLeaf))
    ensures
        final(out)@ == old(out)@ + entry_text(entry_view(*e)),
{
    let ghost start = out@;
    let q = json_quote(e.0.as_str());
    push_str(out, q.as_str());
    push_char(out, ':');
    push_leaf(out, &e.1);
    assert(out@ =~= start + entry_text(entry_view(*e)));
}

/// The compact JSON text of the object with members `ms`, in that order.
pub fn write_object(ms: &Vec<(String, JsonLeaf)>) -> (r: String)
    ensures
        r@ == object_text(members_view(ms@)),
{
    let ghost view = members_view(ms@);
    let mut out = String::new();
    push_char(&mut out, '{');
    let mut i: usize = 0;
    assert(view.take(0) =~= Seq::<(Seq<char>, LeafView)>::empty());
    assert(out@ =~= seq!['{'] + members_text(view.take(0)));
    while i < ms.len()
        invariant
            i <= ms.len(),
            view == members_view(ms@),
            out@ == seq!['{'] + members_text(view.take(i as int)),
        decreases ms.len() - i,
    {
        let ghost before = out@;
        if i > 0 {
            push_char(&mut out, ',');
        }
        push_entry(&mut out, &ms[i]);
        proof {
            let t = view.take(i + 1);
            assert(t.drop_last() =~= view.take(i as int));
            assert(t.last() == entry_view(ms@[i as int]));
            if i == 0 {
                assert(out@ =~= seq!['{'] + members_text(t));
            } else {
                assert(out@ =~= seq!['{'] + members_text(t));
            }
        }
        i = i + 1;
    }
    assert(view.take(ms.len() as int) =~= view);
    let ghost before = out@;
    push_char(&mut out, '}');
    assert(out@ =~= before + seq!['}']);
    out
}

/// The compact JSON text of the array with items `items`.
pub fn write_array(items: &Vec<JsonLeaf>) -> (r: String)
    ensures
        r@ == array_text(items_view(items@)),
{
    let ghost view = items_view(items@);
    let mut out = String::new();
    push_char(&mut out, '[');
    let mut i: usize = 0;
    assert(view.take(0) =~= Seq::<LeafView>::empty());
    assert(out@ =~= seq!['['] + items_text(view.take(0)));
    while i < items.len()
        invariant
            i <= items.len(),
            view == items_view(items@),
            out@ == seq!['['] + items_text(view.take(i as int)),
        decreases items.len() - i,
    {
        if i > 0 {
            push_char(&mut out, ',');
        }
        push_leaf(&mut out, &items[i]);
        proof {
            let t = view.take(i + 1);
            assert(t.drop_last() =~= view.take(i as int));
            assert(t.last() == items@[i as int]@);
            assert(out@ =~= seq!['['] + items_text(t));
        }
        i = i + 1;
    }
    assert(view.take(items.len() as int) =~= view);
    let ghost before = out@;
    push_char(&mut out, ']');
    assert(out@ =~= before + seq![']']);
    out
}

} // verus!
