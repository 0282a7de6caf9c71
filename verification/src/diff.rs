//! The difference between two Super Island payloads, each a list of features keyed by
//! `featureId`: send everything, send the changed features, or send nothing.
use vstd::prelude::*;
use vstd::string::*;
use crate::json_model::{
    JsonLeaf, LeafView, array_text, copy_leaf, find_member, get_member, get_str, items_view, json_array_of,
    json_object_of, last_index, leaf_eq, members_view, object_text, parse_array, parse_object, vmember, vstr,
    write_array, write_object,
};
use crate::text::owned;

verus! {

/// What to send for a new payload.
#[derive(Debug, PartialEq, Eq)]
pub enum DiffDecision {
    /// The whole payload.
    Full,
    /// The changed features (`{"changes":[...],"type":"delta"}`).
    Delta(String),
    /// Nothing: no feature changed.
    Skip,
}

/// Name for whether `text` is JSON at all.
pub uninterp spec fn json_valid(text: Seq<char>) -> bool;

/// Parses `text` with `serde_json::from_str::<serde_json::Value>` and answers whether it is
/// JSON (named by `json_valid`).
#[verifier::external_body]
pub(crate) fn is_json(text: &str) -> (r: bool)
    ensures
        r == json_valid(text@),
{
    serde_json::from_str::<serde_json::Value>(text).is_ok()
}

/// The features of an items list: `(featureId, item)` for each object item with a string
/// `featureId`, in order.
pub open spec fn features_of(items: Seq<LeafView>) -> Seq<(Seq<char>, LeafView)>
    decreases items.len(),
{
    if items.len() == 0 {
        Seq::empty()
    } else {
        let rest = features_of(items.drop_last());
        match items.last() {
            LeafView::Raw(t) => match json_object_of(t) {
                Some(o) => match vstr(o, "featureId"@) {
                    Some(id) => rest.push((id, items.last())),
                    None => rest,
                },
                None => rest,
            },
            _ => rest,
        }
    }
}

/// The features of a payload text (none when it has no `features` array).
pub open spec fn payload_features(text: Seq<char>) -> Seq<(Seq<char>, LeafView)> {
    match json_object_of(text) {
        Some(v) => match vmember(v, "features"@) {
            Some(LeafView::Raw(t)) => match json_array_of(t) {
                Some(items) => features_of(items),
                None => Seq::empty(),
            },
            _ => Seq::empty(),
        },
        None => Seq::empty(),
    }
}

/// Both payloads have the same feature ids.
pub open spec fn same_ids(fo: Seq<(Seq<char>, LeafView)>, fnew: Seq<(Seq<char>, LeafView)>) -> bool {
    forall|k: Seq<char>| (#[trigger] vmember(fo, k) is Some) == (vmember(fnew, k) is Some)
}

/// The new items of the features that changed, in the order of the old payload (each id once,
/// at its last place).
pub open spec fn changed_items(fo: Seq<(Seq<char>, LeafView)>, fnew: Seq<(Seq<char>, LeafView)>, n: int) -> Seq<LeafView>
    decreases n,
{
    if n <= 0 {
        Seq::empty()
    } else {
        let rest = changed_items(fo, fnew, n - 1);
        let k = fo[n - 1].0;
        if last_index(fo, k) == Some(n - 1) && vmember(fo, k) != vmember(fnew, k) && vmember(fnew, k) is Some {
            rest.push(vmember(fnew, k)->0)
        } else {
            rest
        }
    }
}

/// The decision for two payload texts.
pub open spec fn diff_decision(old_json: Seq<char>, new_json: Seq<char>) -> Option<Option<Seq<char>>> {
    if old_json.len() == 0 || !json_valid(old_json) || !json_valid(new_json) {
        None
    } else {
        let fo = payload_features(old_json);
        let fnew = payload_features(new_json);
        if !same_ids(fo, fnew) {
            None
        } else {
            let ch = changed_items(fo, fnew, fo.len() as int);
            if ch.len() == 0 {
                Some(None)
            } else {
                Some(Some(object_text(seq![("changes"@, LeafView::Raw(array_text(ch))), ("type"@, LeafView::Str("delta"@))])))
            }
        }
    }
}

/// The decision as text: `None` is Full, `Some(None)` Skip, `Some(Some(d))` Delta(d).
pub open spec fn decision_view(d: DiffDecision) -> Option<Option<Seq<char>>> {
    match d {
        DiffDecision::Full => None,
        DiffDecision::Skip => Some(None),
        DiffDecision::Delta(t) => Some(Some(t@)),
    }
}

/// The features of a parsed items list.
fn features_from(items: &Vec<JsonLeaf>) -> (r: Vec<(String, JsonLeaf)>)
    ensures
        members_view(r@) == features_of(items_view(items@)),
{
    let ghost iv = items_view(items@);
    let mut out: Vec<(String, JsonLeaf)> = Vec::new();
    let mut i: usize = 0;
    assert(iv.take(0) =~= Seq::<LeafView>::empty());
    assert(members_view(out@) =~= Seq::<(Seq<char>, LeafView)>::empty());
    while i < items.len()
        invariant
            i <= items.len(),
            iv == items_view(items@),
            members_view(out@) == features_of(iv.take(i as int)),
        decreases items.len() - i,
    {
        let ghost before = out@;
        proof {
            let t = iv.take(i + 1);
            assert(t.drop_last() =~= iv.take(i as int));
            assert(t.last() == items@[i as int]@);
        }
        match &items[i] {
            JsonLeaf::Raw(t) => match parse_object(t.as_str()) {
                Some(o) => match get_str(&o, "featureId") {
                    Some(id) => {
                        out.push((id, copy_leaf(&items[i])));
                        assert(members_view(out@) =~= members_view(before).push((members_view(out@).last())));
                    },
                    None => {},
                },
                None => {},
            },
            _ => {},
        }
        i = i + 1;
    }
    assert(iv.take(items.len() as int) =~= iv);
    out
}

/// The features of a payload text.
fn features_of_text(text: &str) -> (r: Vec<(String, JsonLeaf)>)
    ensures
        members_view(r@) == payload_features(text@),
{
    let empty: Vec<(String, JsonLeaf)> = Vec::new();
    assert(members_view(empty@) =~= Seq::<(Seq<char>, LeafView)>::empty());
    match parse_object(text) {
        Some(v) => match get_member(&v, "features") {
            Some(JsonLeaf::Raw(t)) => match parse_array(t.as_str()) {
                Some(items) => features_from(&items),
                None => empty,
            },
            _ => empty,
        },
        None => empty,
    }
}

/// Whether every id of `a` is an id of `b`.
fn ids_within(a: &Vec<(String, JsonLeaf)>, b: &Vec<(String, JsonLeaf)>) -> (r: bool)
    ensures
        r == forall|k: Seq<char>| (#[trigger] vmember(members_view(a@), k)) is Some ==> vmember(members_view(b@), k) is Some,
{
    let ghost av = members_view(a@);
    let ghost bv = members_view(b@);
    let mut i: usize = 0;
    while i < a.len()
        invariant
            i <= a.len(),
            av == members_view(a@),
            bv == members_view(b@),
            forall|j: int| 0 <= j < i ==> vmember(bv, (#[trigger] av[j]).0) is Some,
        decreases a.len() - i,
    {
        let found = get_member(b, a[i].0.as_str()).is_some();
        if !found {
            proof {
                crate::json_model::lemma_vmember_present(av, i as int);
            }
            return false;
        }
        i = i + 1;
    }
    proof {
        assert forall|k: Seq<char>| (#[trigger] vmember(av, k)) is Some implies vmember(bv, k) is Some by {
            crate::json_model::lemma_vmember_some_index(av, k);
            let j = choose|j: int| 0 <= j < av.len() && (#[trigger] av[j]).0 == k;
            assert(vmember(bv, av[j].0) is Some);
        }
    }
    true
}

/// The decision for a new Super Island payload against the last one sent: Full when there was
/// none, when either is not JSON, or when the feature ids differ; else the changed features
/// as a delta, or Skip when none changed.
pub fn compute_superisland_diff(old_json: &str, new_json: &str) -> (r: DiffDecision)
    ensures
        decision_view(r) == diff_decision(old_json@, new_json@),
{
    if old_json.is_empty() {
        return DiffDecision::Full;
    }
    if !is_json(old_json) || !is_json(new_json) {
        return DiffDecision::Full;
    }
    let fo = features_of_text(old_json);
    let fnew = features_of_text(new_json);
    let ghost fov = members_view(fo@);
    let ghost fnv = members_view(fnew@);
    if !ids_within(&fo, &fnew) || !ids_within(&fnew, &fo) {
        return DiffDecision::Full;
    }
    let mut changes: Vec<JsonLeaf> = Vec::new();
    let mut i: usize = 0;
    assert(items_view(changes@) =~= changed_items(fov, fnv, 0));
    while i < fo.len()
        invariant
            i <= fo.len(),
            fov == members_view(fo@),
            fnv == members_view(fnew@),
            items_view(changes@) == changed_items(fov, fnv, i as int),
        decreases fo.len() - i,
    {
        let k = fo[i].0.as_str();
        let last = match find_member(&fo, k) {
            Some(j) => j == i,
            None => false,
        };
        let o = get_member(&fo, k);
        let n = get_member(&fnew, k);
        let differs = match (&o, &n) {
            (Some(x), Some(y)) => !leaf_eq(x, y),
            (None, Some(_)) => true,
            _ => false,
        };
        if last && differs {
            match n {
                Some(y) => {
                    let ghost before = changes@;
                    changes.push(y);
                    assert(items_view(changes@) =~= items_view(before).push(changes@.last()@));
                },
                None => {},
            }
        }
        i = i + 1;
    }
    if changes.len() == 0 {
        DiffDecision::Skip
    } else {
        let mut ms: Vec<(String, JsonLeaf)> = Vec::new();
        ms.push((owned("changes"), JsonLeaf::Raw(write_array(&changes))));
        ms.push((owned("type"), JsonLeaf::Str(owned("delta"))));
        assert(members_view(ms@) =~= seq![
            ("changes"@, LeafView::Raw(array_text(items_view(changes@)))),
            ("type"@, LeafView::Str("delta"@)),
        ]);
        DiffDecision::Delta(write_object(&ms))
    }
}

} // verus!
