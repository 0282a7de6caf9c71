//! The state merge engine of Super Island and media sync.
//!
//! The sender is handed full states only; it decides between a full packet, a delta of the
//! fields that changed, and nothing, tracks the acknowledgements and resends full states
//! periodically. The receiver merges each delta into the last full state it holds, so the
//! platform only ever sees full states.
use vstd::prelude::*;
use vstd::string::*;
use vstd::utf8::*;
use crate::crypto::digest::{hex_of, sha256_hex, sha256_of, sha1_of};
use crate::json_model::{
    JsonLeaf, LeafView, array_text, copy_leaf, copy_members, get_member, get_str, items_view, json_array_of,
    json_object_of, leaf_eq, lemma_vmember_put, lemma_vmember_without, members_view, object_text, parse_array,
    parse_object, put, remove_member, set_member, vmember, vstr, without, write_array, write_object,
};
use crate::sender_queue::{SendItem, SenderQueue, age, initial_retries, kept_for, media_key};
use crate::text::{join_seq, owned, push_char, push_str, str_eq};
use crate::utils::{compute_feature_id, feature_parts, or_empty};
use crate::vecmap::{find_index, insert_key, last_value, lemma_insert_key, lemma_update_found, remove_key, without_key};

verus! {

// ===================== the island model =====================

/// A Super Island or media state: its top-level members, with the `pics` object held apart
/// when there is one.
pub struct IslandState {
    /// Top-level members (without `pics` when `pics` holds an object).
    pub fields: Vec<(String, JsonLeaf)>,
    /// The members of the `pics` object, when the state has one.
    pub pics: Option<Vec<(String, JsonLeaf)>>,
}

/// An island state as text.
pub struct IslandView {
    pub fields: Seq<(Seq<char>, LeafView)>,
    pub pics: Option<Seq<(Seq<char>, LeafView)>>,
}

impl View for IslandState {
    type V = IslandView;

    open spec fn view(&self) -> IslandView {
        IslandView {
            fields: members_view(self.fields@),
            pics: match self.pics {
                Some(p) => Some(members_view(p@)),
                None => None,
            },
        }
    }
}

/// A well-formed island keeps no `pics` member beside its `pics` object.
pub open spec fn island_wf(s: IslandView) -> bool {
    s.pics is Some ==> vmember(s.fields, "pics"@) is None
}

/// The `pics` object of a member list, when its `pics` member is an object.
pub open spec fn pics_object(s: Seq<(Seq<char>, LeafView)>) -> Option<Seq<(Seq<char>, LeafView)>> {
    match vmember(s, "pics"@) {
        Some(LeafView::Raw(t)) => json_object_of(t),
        _ => None,
    }
}

/// The island of a member list.
pub open spec fn island_of(s: Seq<(Seq<char>, LeafView)>) -> IslandView {
    match pics_object(s) {
        Some(p) => IslandView { fields: without(s, "pics"@), pics: Some(p) },
        None => IslandView { fields: s, pics: None },
    }
}

/// The text of an island: its members, with `pics` put back in name order.
pub open spec fn island_text(s: IslandView) -> Seq<char> {
    match s.pics {
        Some(p) => object_text(put(s.fields, "pics"@, LeafView::Raw(object_text(p)))),
        None => object_text(s.fields),
    }
}

/// The pictures of an island (none when it has no `pics` object).
pub open spec fn pics_map(s: IslandView) -> Seq<(Seq<char>, LeafView)> {
    match s.pics {
        Some(p) => p,
        None => Seq::empty(),
    }
}

/// The island of a member list.
pub fn island_from_members(ms: Vec<(String, JsonLeaf)>) -> (r: IslandState)
    ensures
        r@ == island_of(members_view(ms@)),
        island_wf(r@),
{
    let mut ms = ms;
    let ghost view = members_view(ms@);
    let pics = match get_member(&ms, "pics") {
        Some(JsonLeaf::Raw(t)) => parse_object(t.as_str()),
        _ => None,
    };
    match pics {
        Some(p) => {
            remove_member(&mut ms, "pics");
            proof {
                lemma_vmember_without(view, "pics"@, "pics"@);
            }
            IslandState { fields: ms, pics: Some(p) }
        },
        None => IslandState { fields: ms, pics: None },
    }
}

/// Parses the island held by `text`: the empty island when `text` is not a JSON object.
pub fn island_from_text(text: &str) -> (r: IslandState)
    ensures
        r@ == island_of(match json_object_of(text@) {
            Some(s) => s,
            None => Seq::empty(),
        }),
        island_wf(r@),
{
    match parse_object(text) {
        Some(ms) => island_from_members(ms),
        None => {
            let r = IslandState { fields: Vec::new(), pics: None };
            assert(r@.fields =~= Seq::<(Seq<char>, LeafView)>::empty());
            r
        },
    }
}

/// The text of an island.
pub fn write_island(s: &IslandState) -> (r: String)
    ensures
        r@ == island_text(s@),
{
    match &s.pics {
        Some(p) => {
            let mut ms = copy_members(&s.fields);
            let pt = write_object(p);
            set_member(&mut ms, "pics", JsonLeaf::Raw(pt));
            write_object(&ms)
        },
        None => write_object(&s.fields),
    }
}

// ===================== changes =====================

/// The changes between two island states, as a delta carries them.
pub struct IslandChanges {
    pub title: Option<JsonLeaf>,
    pub text: Option<JsonLeaf>,
    pub param: Option<JsonLeaf>,
    /// Pictures added or changed.
    pub pics: Option<Vec<(String, JsonLeaf)>>,
    /// Names of the pictures removed (string items).
    pub pics_removed: Option<Vec<JsonLeaf>>,
}

/// Changes as text.
pub struct ChangesView {
    pub title: Option<LeafView>,
    pub text: Option<LeafView>,
    pub param: Option<LeafView>,
    pub pics: Option<Seq<(Seq<char>, LeafView)>>,
    pub pics_removed: Option<Seq<LeafView>>,
}

/// A member value as text.
pub open spec fn leaf_opt(l: Option<JsonLeaf>) -> Option<LeafView> {
    match l {
        Some(v) => Some(v@),
        None => None,
    }
}

impl View for IslandChanges {
    type V = ChangesView;

    open spec fn view(&self) -> ChangesView {
        ChangesView {
            title: leaf_opt(self.title),
            text: leaf_opt(self.text),
            param: leaf_opt(self.param),
            pics: match self.pics {
                Some(p) => Some(members_view(p@)),
                None => None,
            },
            pics_removed: match self.pics_removed {
                Some(i) => Some(items_view(i@)),
                None => None,
            },
        }
    }
}

/// The change of a text field: the new text (empty when gone) when it differs.
pub open spec fn field_change(o: Option<Seq<char>>, n: Option<Seq<char>>) -> Option<LeafView> {
    if o != n {
        Some(LeafView::Str(or_empty(n)))
    } else {
        None
    }
}

/// Predicate: a picture differs from (or is missing in) `op`.
pub open spec fn pic_changed(op: Seq<(Seq<char>, LeafView)>) -> spec_fn((Seq<char>, LeafView)) -> bool {
    |e: (Seq<char>, LeafView)| vmember(op, e.0) != Some(e.1)
}

/// Predicate: a picture is missing in `np`.
pub open spec fn pic_gone(np: Seq<(Seq<char>, LeafView)>) -> spec_fn((Seq<char>, LeafView)) -> bool {
    |e: (Seq<char>, LeafView)| vmember(np, e.0) is None
}

/// The name of a picture, as a string value.
pub open spec fn pic_name(e: (Seq<char>, LeafView)) -> LeafView {
    LeafView::Str(e.0)
}

/// What a delta from `old` to `new` carries: the text fields that differ, the pictures added
/// or changed, and the names of the pictures removed (each list only when not empty).
pub open spec fn diff_spec(old: IslandView, new: IslandView) -> ChangesView {
    let changed = pics_map(new).filter(pic_changed(pics_map(old)));
    let removed = pics_map(old).filter(pic_gone(pics_map(new))).map_values(|e: (Seq<char>, LeafView)| pic_name(e));
    ChangesView {
        title: field_change(vstr(old.fields, "title"@), vstr(new.fields, "title"@)),
        text: field_change(vstr(old.fields, "text"@), vstr(new.fields, "text"@)),
        param: field_change(vstr(old.fields, "param_v2_raw"@), vstr(new.fields, "param_v2_raw"@)),
        pics: if changed.len() > 0 { Some(changed) } else { None },
        pics_removed: if removed.len() > 0 { Some(removed) } else { None },
    }
}

/// A delta that carries nothing.
pub open spec fn changes_empty(c: ChangesView) -> bool {
    c.title is None && c.text is None && c.param is None && c.pics is None && c.pics_removed is None
}

/// The change of a text field.
fn diff_field(old: &IslandState, new: &IslandState, k: &str) -> (r: Option<JsonLeaf>)
    ensures
        leaf_opt(r) == field_change(vstr(old@.fields, k@), vstr(new@.fields, k@)),
{
    let o = get_str(&old.fields, k);
    let n = get_str(&new.fields, k);
    let same = match (&o, &n) {
        (Some(a), Some(b)) => str_eq(a.as_str(), b.as_str()),
        (None, None) => true,
        _ => false,
    };
    if same {
        None
    } else {
        Some(JsonLeaf::Str(match n {
            Some(v) => v,
            None => String::new(),
        }))
    }
}

/// The pictures of an island, copied (none when it has no `pics` object).
fn pics_of(s: &IslandState) -> (r: Vec<(String, JsonLeaf)>)
    ensures
        members_view(r@) == pics_map(s@),
{
    match &s.pics {
        Some(p) => copy_members(p),
        None => {
            let r: Vec<(String, JsonLeaf)> = Vec::new();
            assert(members_view(r@) =~= Seq::<(Seq<char>, LeafView)>::empty());
            r
        },
    }
}

/// The changes from `old` to `new`.
pub fn diff_island(old: &IslandState, new: &IslandState) -> (r: IslandChanges)
    ensures
        r@ == diff_spec(old@, new@),
{
    let op = pics_of(old);
    let np = pics_of(new);
    let ghost opv = members_view(op@);
    let ghost npv = members_view(np@);
    let mut changed: Vec<(String, JsonLeaf)> = Vec::new();
    let mut i: usize = 0;
    assert(npv.take(0).filter(pic_changed(opv)) =~= Seq::<(Seq<char>, LeafView)>::empty()) by {
        reveal(Seq::filter);
    }
    while i < np.len()
        invariant
            i <= np.len(),
            opv == members_view(op@),
            npv == members_view(np@),
            members_view(changed@) == npv.take(i as int).filter(pic_changed(opv)),
        decreases np.len() - i,
    {
        let ghost e = npv[i as int];
        proof {
            assert(npv.take(i + 1) =~= npv.take(i as int).push(e));
            npv.take(i as int).lemma_filter_push(e, pic_changed(opv));
        }
        let differs = match get_member(&op, np[i].0.as_str()) {
            Some(l) => !leaf_eq(&l, &np[i].1),
            None => true,
        };
        if differs {
            let ghost before = changed@;
            changed.push((owned(np[i].0.as_str()), copy_leaf(&np[i].1)));
            assert(members_view(changed@) =~= members_view(before).push(e));
        }
        i = i + 1;
    }
    assert(npv.take(np.len() as int) =~= npv);
    let ghost name_of = |e: (Seq<char>, LeafView)| pic_name(e);
    let mut removed: Vec<JsonLeaf> = Vec::new();
    let mut j: usize = 0;
    assert(opv.take(0).filter(pic_gone(npv)) =~= Seq::<(Seq<char>, LeafView)>::empty()) by {
        reveal(Seq::filter);
    }
    assert(items_view(removed@) =~= opv.take(0).filter(pic_gone(npv)).map_values(name_of));
    while j < op.len()
        invariant
            j <= op.len(),
            opv == members_view(op@),
            npv == members_view(np@),
            name_of == (|e: (Seq<char>, LeafView)| pic_name(e)),
            items_view(removed@) == opv.take(j as int).filter(pic_gone(npv)).map_values(name_of),
        decreases op.len() - j,
    {
        let ghost e = opv[j as int];
        proof {
            assert(opv.take(j + 1) =~= opv.take(j as int).push(e));
            opv.take(j as int).lemma_filter_push(e, pic_gone(npv));
        }
        let present = get_member(&np, op[j].0.as_str()).is_some();
        if !present {
            let ghost before = removed@;
            let ghost f = opv.take(j as int).filter(pic_gone(npv));
            removed.push(JsonLeaf::Str(owned(op[j].0.as_str())));
            assert(items_view(removed@) =~= items_view(before).push(pic_name(e)));
            assert(f.push(e).map_values(name_of) =~= f.map_values(name_of).push(name_of(e)));
        } else {
            assert(opv.take(j + 1).filter(pic_gone(npv)) == opv.take(j as int).filter(pic_gone(npv)));
        }
        j = j + 1;
    }
    assert(opv.take(op.len() as int) =~= opv);
    let title = diff_field(old, new, "title");
    let text = diff_field(old, new, "text");
    let param = diff_field(old, new, "param_v2_raw");
    let r = IslandChanges {
        title,
        text,
        param,
        pics: if changed.len() > 0 { Some(changed) } else { None },
        pics_removed: if removed.len() > 0 { Some(removed) } else { None },
    };
    assert(r@.pics_removed == diff_spec(old@, new@).pics_removed);
    r
}

/// Whether a delta carries nothing.
pub fn delta_is_empty(c: &IslandChanges) -> (r: bool)
    ensures
        r == changes_empty(c@),
{
    c.title.is_none() && c.text.is_none() && c.param.is_none() && c.pics.is_none() && c.pics_removed.is_none()
}

// ===================== merging =====================

/// Applies the change of one text field: a null change removes it, another value sets it.
pub open spec fn apply_field(s: Seq<(Seq<char>, LeafView)>, k: Seq<char>, ch: Option<LeafView>) -> Seq<(Seq<char>, LeafView)> {
    match ch {
        None => s,
        Some(LeafView::Null) => without(s, k),
        Some(v) => put(s, k, v),
    }
}

/// A picture change that removes the picture: null or the empty string.
pub open spec fn pic_dropped(v: LeafView) -> bool {
    v == LeafView::Null || v == LeafView::Str(Seq::empty())
}

/// Applies picture changes in order.
pub open spec fn apply_pics(p: Seq<(Seq<char>, LeafView)>, pn: Seq<(Seq<char>, LeafView)>) -> Seq<(Seq<char>, LeafView)>
    decreases pn.len(),
{
    if pn.len() == 0 {
        p
    } else {
        let q = apply_pics(p, pn.drop_last());
        let e = pn.last();
        if pic_dropped(e.1) {
            without(q, e.0)
        } else {
            put(q, e.0, e.1)
        }
    }
}

/// Removes the pictures named by string items, in order.
pub open spec fn apply_removed(p: Seq<(Seq<char>, LeafView)>, items: Seq<LeafView>) -> Seq<(Seq<char>, LeafView)>
    decreases items.len(),
{
    if items.len() == 0 {
        p
    } else {
        let q = apply_removed(p, items.drop_last());
        match items.last() {
            LeafView::Str(k) => without(q, k),
            _ => q,
        }
    }
}

/// The island after a delta: text fields changed, then pictures changed (a `pics` object is
/// created when there was none), then pictures removed (when there is a `pics` object).
pub open spec fn merge_spec(base: IslandView, c: ChangesView) -> IslandView {
    let fields = apply_field(
        apply_field(apply_field(base.fields, "title"@, c.title), "text"@, c.text),
        "param_v2_raw"@,
        c.param,
    );
    let after = match c.pics {
        Some(pn) => Some(apply_pics(pics_map(base), pn)),
        None => base.pics,
    };
    let pics = match (after, c.pics_removed) {
        (Some(p), Some(items)) => Some(apply_removed(p, items)),
        _ => after,
    };
    IslandView { fields, pics }
}

/// A delta can be merged into `base` unless it brings pictures while `base` has a `pics`
/// member that is not an object.
pub open spec fn mergeable(base: IslandView, c: ChangesView) -> bool {
    c.pics is Some ==> vmember(base.fields, "pics"@) is None
}

fn merge_field(fields: &mut Vec<(String, JsonLeaf)>, k: &str, ch: &Option<JsonLeaf>)
    ensures
        members_view(final(fields)@) == apply_field(members_view(old(fields)@), k@, leaf_opt(*ch)),
{
    match ch {
        None => {},
        Some(JsonLeaf::Null) => remove_member(fields, k),
        Some(v) => set_member(fields, k, copy_leaf(v)),
    }
}

proof fn lemma_apply_field_keeps(s: Seq<(Seq<char>, LeafView)>, k: Seq<char>, ch: Option<LeafView>, o: Seq<char>)
    requires
        o != k,
    ensures
        vmember(apply_field(s, k, ch), o) == vmember(s, o),
{
    match ch {
        None => {},
        Some(LeafView::Null) => lemma_vmember_without(s, k, o),
        Some(v) => lemma_vmember_put(s, k, v, o),
    }
}

/// Merges a delta into `base`.
pub fn merge_island(base: &IslandState, c: &IslandChanges) -> (r: IslandState)
    requires
        island_wf(base@),
        mergeable(base@, c@),
    ensures
        r@ == merge_spec(base@, c@),
        island_wf(r@),
{
    let mut fields = copy_members(&base.fields);
    merge_field(&mut fields, "title", &c.title);
    merge_field(&mut fields, "text", &c.text);
    merge_field(&mut fields, "param_v2_raw", &c.param);
    proof {
        reveal_strlit("pics");
        reveal_strlit("title");
        reveal_strlit("text");
        reveal_strlit("param_v2_raw");
        let f0 = base@.fields;
        let f1 = apply_field(f0, "title"@, c@.title);
        let f2 = apply_field(f1, "text"@, c@.text);
        assert("pics"@.len() != "title"@.len());
        assert("pics"@[0] != "text"@[0]);
        assert("pics"@ != "title"@);
        assert("pics"@ != "text"@);
        assert("pics"@ != "param_v2_raw"@);
        lemma_apply_field_keeps(f0, "title"@, c@.title, "pics"@);
        lemma_apply_field_keeps(f1, "text"@, c@.text, "pics"@);
        lemma_apply_field_keeps(f2, "param_v2_raw"@, c@.param, "pics"@);
    }
    let mut pics: Option<Vec<(String, JsonLeaf)>> = match &c.pics {
        Some(pn) => {
            let mut p = pics_of(base);
            let ghost p0 = members_view(p@);
            let ghost pnv = members_view(pn@);
            let mut i: usize = 0;
            assert(pnv.take(0) =~= Seq::<(Seq<char>, LeafView)>::empty());
            while i < pn.len()
                invariant
                    i <= pn.len(),
                    pnv == members_view(pn@),
                    members_view(p@) == apply_pics(p0, pnv.take(i as int)),
                decreases pn.len() - i,
            {
                let dropped = match &pn[i].1 {
                    JsonLeaf::Null => true,
                    JsonLeaf::Str(s) => s.as_str().is_empty(),
                    _ => false,
                };
                proof {
                    let t = pnv.take(i + 1);
                    assert(t.drop_last() =~= pnv.take(i as int));
                    assert(t.last() == pnv[i as int]);
                    if let JsonLeaf::Str(s) = pn@[i as int].1 {
                        if s@.len() == 0 {
                            assert(s@ =~= Seq::<char>::empty());
                        }
                    }
                }
                if dropped {
                    remove_member(&mut p, pn[i].0.as_str());
                } else {
                    set_member(&mut p, pn[i].0.as_str(), copy_leaf(&pn[i].1));
                }
                i = i + 1;
            }
            assert(pnv.take(pn.len() as int) =~= pnv);
            Some(p)
        },
        None => match &base.pics {
            Some(bp) => Some(copy_members(bp)),
            None => None,
        },
    };
    match (&mut pics, &c.pics_removed) {
        (Some(p), Some(items)) => {
            let ghost p0 = members_view(p@);
            let ghost iv = items_view(items@);
            let mut j: usize = 0;
            assert(iv.take(0) =~= Seq::<LeafView>::empty());
            while j < items.len()
                invariant
                    j <= items.len(),
                    iv == items_view(items@),
                    members_view(p@) == apply_removed(p0, iv.take(j as int)),
                decreases items.len() - j,
            {
                proof {
                    let t = iv.take(j + 1);
                    assert(t.drop_last() =~= iv.take(j as int));
                    assert(t.last() == items@[j as int]@);
                }
                match &items[j] {
                    JsonLeaf::Str(k) => remove_member(p, k.as_str()),
                    _ => {},
                }
                j = j + 1;
            }
            assert(iv.take(items.len() as int) =~= iv);
        },
        _ => {},
    }
    IslandState { fields, pics }
}

// ===================== the changes on the wire =====================

/// A member when there is a value.
pub open spec fn opt_entry(k: Seq<char>, v: Option<LeafView>) -> Seq<(Seq<char>, LeafView)> {
    match v {
        Some(l) => seq![(k, l)],
        None => Seq::empty(),
    }
}

/// The members of the `changes` object, in name order.
pub open spec fn changes_members(c: ChangesView) -> Seq<(Seq<char>, LeafView)> {
    opt_entry("param_v2_raw"@, c.param) + opt_entry(
        "pics"@,
        match c.pics {
            Some(p) => Some(LeafView::Raw(object_text(p))),
            None => None,
        },
    ) + opt_entry(
        "pics_removed"@,
        match c.pics_removed {
            Some(i) => Some(LeafView::Raw(array_text(i))),
            None => None,
        },
    ) + opt_entry("text"@, c.text) + opt_entry("title"@, c.title)
}

fn push_opt_entry(ms: &mut Vec<(String, JsonLeaf)>, k: &str, v: Option<JsonLeaf>)
    ensures
        members_view(final(ms)@) == members_view(old(ms)@) + opt_entry(k@, leaf_opt(v)),
{
    let ghost before = members_view(ms@);
    match v {
        Some(l) => {
            ms.push((owned(k), l));
            assert(members_view(ms@) =~= before + opt_entry(k@, leaf_opt(v)));
        },
        None => {
            assert(members_view(ms@) =~= before + opt_entry(k@, leaf_opt(v)));
        },
    }
}

/// The JSON text of the `changes` object.
pub fn encode_changes(c: &IslandChanges) -> (r: String)
    ensures
        r@ == object_text(changes_members(c@)),
{
    let mut ms: Vec<(String, JsonLeaf)> = Vec::new();
    assert(members_view(ms@) =~= Seq::<(Seq<char>, LeafView)>::empty());
    push_opt_entry(&mut ms, "param_v2_raw", match &c.param {
        Some(l) => Some(copy_leaf(l)),
        None => None,
    });
    push_opt_entry(&mut ms, "pics", match &c.pics {
        Some(p) => Some(JsonLeaf::Raw(write_object(p))),
        None => None,
    });
    push_opt_entry(&mut ms, "pics_removed", match &c.pics_removed {
        Some(i) => Some(JsonLeaf::Raw(write_array(i))),
        None => None,
    });
    push_opt_entry(&mut ms, "text", match &c.text {
        Some(l) => Some(copy_leaf(l)),
        None => None,
    });
    push_opt_entry(&mut ms, "title", match &c.title {
        Some(l) => Some(copy_leaf(l)),
        None => None,
    });
    assert(members_view(ms@) =~= changes_members(c@));
    write_object(&ms)
}

/// The changes a `changes` object carries: the text fields as they are, `pics` when it is an
/// object, `pics_removed` when it is an array.
pub open spec fn decode_spec(s: Seq<(Seq<char>, LeafView)>) -> ChangesView {
    ChangesView {
        title: vmember(s, "title"@),
        text: vmember(s, "text"@),
        param: vmember(s, "param_v2_raw"@),
        pics: pics_object(s),
        pics_removed: match vmember(s, "pics_removed"@) {
            Some(LeafView::Raw(t)) => json_array_of(t),
            _ => None,
        },
    }
}

/// Reads the changes of a `changes` object.
pub fn decode_changes(ms: &Vec<(String, JsonLeaf)>) -> (r: IslandChanges)
    ensures
        r@ == decode_spec(members_view(ms@)),
{
    let pics = match get_member(ms, "pics") {
        Some(JsonLeaf::Raw(t)) => parse_object(t.as_str()),
        _ => None,
    };
    let pics_removed = match get_member(ms, "pics_removed") {
        Some(JsonLeaf::Raw(t)) => parse_array(t.as_str()),
        _ => None,
    };
    IslandChanges {
        title: get_member(ms, "title"),
        text: get_member(ms, "text"),
        param: get_member(ms, "param_v2_raw"),
        pics,
        pics_removed,
    }
}

// ===================== packets =====================

/// The `type` of a full packet: `MEDIA_PLAY` for the media feature, else `SUPERISLAND`.
pub open spec fn full_type(fid: Seq<char>) -> Seq<char> {
    if fid == "media_global"@ {
        "MEDIA_PLAY"@
    } else {
        "SUPERISLAND"@
    }
}

/// The members of a full packet: the state with its type, feature id and hash; an end packet
/// also carries `terminateValue: "__END__"` and `terminate: true`, another one no `terminate`.
pub open spec fn full_wire_members(v: Seq<(Seq<char>, LeafView)>, fid: Seq<char>, hash: Seq<char>, is_end: bool) -> Seq<(Seq<char>, LeafView)> {
    let a = put(put(put(v, "type"@, LeafView::Str(full_type(fid))), "featureKeyValue"@, LeafView::Str(fid)), "hash"@, LeafView::Str(hash));
    if is_end {
        put(put(a, "terminateValue"@, LeafView::Str("__END__"@)), "terminate"@, LeafView::Raw("true"@))
    } else {
        without(a, "terminate"@)
    }
}

/// The text of a full packet.
pub fn build_full_wire(full: &Vec<(String, JsonLeaf)>, fid: &str, hash: &str, is_end: bool) -> (r: String)
    ensures
        r@ == object_text(full_wire_members(members_view(full@), fid@, hash@, is_end)),
{
    let mut ms = copy_members(full);
    let t = if str_eq(fid, "media_global") { "MEDIA_PLAY" } else { "SUPERISLAND" };
    set_member(&mut ms, "type", JsonLeaf::Str(owned(t)));
    set_member(&mut ms, "featureKeyValue", JsonLeaf::Str(owned(fid)));
    set_member(&mut ms, "hash", JsonLeaf::Str(owned(hash)));
    if is_end {
        set_member(&mut ms, "terminateValue", JsonLeaf::Str(owned("__END__")));
        set_member(&mut ms, "terminate", JsonLeaf::Raw(owned("true")));
    } else {
        remove_member(&mut ms, "terminate");
    }
    write_object(&ms)
}

/// The members of a delta packet.
pub open spec fn delta_wire_members(c: ChangesView, fid: Seq<char>, hash: Seq<char>) -> Seq<(Seq<char>, LeafView)> {
    seq![
        ("changes"@, LeafView::Raw(object_text(changes_members(c)))),
        ("featureKeyValue"@, LeafView::Str(fid)),
        ("hash"@, LeafView::Str(hash)),
        ("type"@, LeafView::Str("delta"@)),
    ]
}

/// The text of a delta packet.
pub fn build_delta_wire(c: &IslandChanges, fid: &str, hash: &str) -> (r: String)
    ensures
        r@ == object_text(delta_wire_members(c@, fid@, hash@)),
{
    let mut ms: Vec<(String, JsonLeaf)> = Vec::new();
    ms.push((owned("changes"), JsonLeaf::Raw(encode_changes(c))));
    ms.push((owned("featureKeyValue"), JsonLeaf::Str(owned(fid))));
    ms.push((owned("hash"), JsonLeaf::Str(owned(hash))));
    ms.push((owned("type"), JsonLeaf::Str(owned("delta"))));
    assert(members_view(ms@) =~= delta_wire_members(c@, fid@, hash@));
    write_object(&ms)
}

/// A full packet without its routing members (`type`, `featureKeyValue`, `hash`, `device`).
pub open spec fn strip_spec(v: Seq<(Seq<char>, LeafView)>) -> Seq<(Seq<char>, LeafView)> {
    without(without(without(without(v, "type"@), "featureKeyValue"@), "hash"@), "device"@)
}

/// Removes the routing members of a full packet.
pub fn strip_routing(ms: &Vec<(String, JsonLeaf)>) -> (r: Vec<(String, JsonLeaf)>)
    ensures
        members_view(r@) == strip_spec(members_view(ms@)),
{
    let mut out = copy_members(ms);
    remove_member(&mut out, "type");
    remove_member(&mut out, "featureKeyValue");
    remove_member(&mut out, "hash");
    remove_member(&mut out, "device");
    out
}

// ===================== sessions =====================

/// What the sender keeps for one device and feature.
pub struct SenderSession {
    pub device_uuid: String,
    pub feature_id: String,
    pub is_media: bool,
    /// The last full state sent (canonical text).
    pub last_full: String,
    pub last_hash: String,
    /// Hash and time (ms) of the full state awaiting acknowledgement (Super Island only).
    pub pending_ack: Option<(String, u64)>,
    pub force_full_next: bool,
    /// When (ms) a full state was last sent.
    pub last_full_resend_ms: u64,
}

/// The state merge engine: sender sessions and the receiver's last full states, each keyed
/// by `"<device>|<feature id>"`.
pub struct StateMerge {
    senders: Vec<(String, SenderSession)>,
    receivers: Vec<(String, String)>,
}

/// The session key of a device and feature.
pub open spec fn key_of(uuid: Seq<char>, fid: Seq<char>) -> Seq<char> {
    uuid + seq!['|'] + fid
}

/// How often (ms) a full state is resent: 6 s for media, 30 s for Super Island.
pub open spec fn heartbeat_ms(is_media: bool) -> u64 {
    if is_media {
        6000
    } else {
        30000
    }
}

/// The packet header of a state.
pub open spec fn header_of(is_media: bool) -> Seq<char> {
    if is_media {
        "DATA_MEDIAPLAY"@
    } else {
        "DATA_SUPERISLAND"@
    }
}

/// `p` is the state packet `payload` for `uuid` under `header`, as the queue stores it.
pub open spec fn state_item(uuid: Seq<char>, header: Seq<char>, payload: Seq<char>, p: SendItem) -> bool {
    &&& p.device_uuid@ == uuid
    &&& p.header@ == header
    &&& p.plaintext@ == payload
    &&& p.dedup_key is None
    &&& p.retries_left == initial_retries(header, payload)
    &&& p.coalesce_key matches Some(k) && k@ == media_key(uuid, header)
}

/// The queue after one state packet was enqueued.
pub open spec fn enqueued(before: SenderQueue, after: SenderQueue, uuid: Seq<char>, header: Seq<char>, payload: Seq<char>) -> bool {
    &&& after.queued().len() > 0
    &&& state_item(uuid, header, payload, after.queued().last())
    &&& after.queued().drop_last() == kept_for(before.queued(), after.queued().last())
    &&& after.in_flight_table() == before.in_flight_table()
    &&& after.busy_table() == before.busy_table()
    &&& after.cooldown_table() == before.cooldown_table()
    &&& after.streak_table() == before.streak_table()
    &&& after.is_running_spec() == before.is_running_spec()
    &&& after.active_spec() == before.active_spec()
}

/// Enqueues a state packet.
fn enqueue_state(queue: &mut SenderQueue, uuid: &str, is_media: bool, payload: String)
    ensures
        enqueued(*old(queue), *final(queue), uuid@, header_of(is_media), payload@),
{
    let header = if is_media { "DATA_MEDIAPLAY" } else { "DATA_SUPERISLAND" };
    let item = SendItem {
        device_uuid: owned(uuid),
        header: owned(header),
        plaintext: payload,
        dedup_key: None,
        retries_left: 0,
        coalesce_key: None,
    };
    queue.enqueue(item);
}

/// A copy of a session.
fn copy_session(s: &SenderSession) -> (r: SenderSession)
    ensures
        same_session(r, *s),
{
    SenderSession {
        device_uuid: owned(s.device_uuid.as_str()),
        feature_id: owned(s.feature_id.as_str()),
        is_media: s.is_media,
        last_full: owned(s.last_full.as_str()),
        last_hash: owned(s.last_hash.as_str()),
        pending_ack: match &s.pending_ack {
            Some(p) => Some((owned(p.0.as_str()), p.1)),
            None => None,
        },
        force_full_next: s.force_full_next,
        last_full_resend_ms: s.last_full_resend_ms,
    }
}

/// Two sessions hold the same texts and values.
pub open spec fn same_session(a: SenderSession, b: SenderSession) -> bool {
    &&& a.device_uuid@ == b.device_uuid@
    &&& a.feature_id@ == b.feature_id@
    &&& a.is_media == b.is_media
    &&& a.last_full@ == b.last_full@
    &&& a.last_hash@ == b.last_hash@
    &&& match (a.pending_ack, b.pending_ack) {
        (Some(x), Some(y)) => x.0@ == y.0@ && x.1 == y.1,
        (None, None) => true,
        _ => false,
    }
    &&& a.force_full_next == b.force_full_next
    &&& a.last_full_resend_ms == b.last_full_resend_ms
}

// ===================== sending =====================

/// The feature id of a pushed state: `media_global` for media, else the feature id of its
/// package, `param_v2_raw`, title and text.
pub open spec fn push_feature_id(v: Seq<(Seq<char>, LeafView)>, is_media: bool) -> Seq<char> {
    if is_media {
        "media_global"@
    } else {
        hex_of(sha1_of(encode_utf8(join_seq(
            feature_parts(
                or_empty(vstr(v, "packageName"@)),
                or_empty(vstr(v, "param_v2_raw"@)),
                or_empty(vstr(v, "title"@)),
                or_empty(vstr(v, "text"@)),
                Seq::empty(),
            ),
            '|',
        ))))
    }
}

/// The hash of a canonical state: lower-case hex SHA-256 of its UTF-8 bytes.
pub open spec fn state_hash(canonical: Seq<char>) -> Seq<char> {
    hex_of(sha256_of(encode_utf8(canonical)))
}

/// A full packet is due: a new session, a session that has sent nothing or must send a full
/// state, or the resend interval has passed.
pub open spec fn sends_full(sess: Option<SenderSession>, is_media: bool, now: u64) -> bool {
    match sess {
        None => true,
        Some(s) => s.last_full@.len() == 0 || s.force_full_next || age(now, s.last_full_resend_ms) >= heartbeat_ms(is_media),
    }
}

/// The members of a stored full state (none when it is not an object).
pub open spec fn stored_members(t: Seq<char>) -> Seq<(Seq<char>, LeafView)> {
    match json_object_of(t) {
        Some(s) => s,
        None => Seq::empty(),
    }
}

/// What a push sends: a full packet when due; else nothing when the state is unchanged or
/// the delta is empty; else the delta packet.
pub open spec fn push_payload(
    sess: Option<SenderSession>,
    v: Seq<(Seq<char>, LeafView)>,
    fid: Seq<char>,
    is_media: bool,
    is_end: bool,
    now: u64,
) -> Option<Seq<char>> {
    let canonical = object_text(v);
    let hash = state_hash(canonical);
    if sends_full(sess, is_media, now) {
        Some(object_text(full_wire_members(v, fid, hash, is_end)))
    } else if sess->0.last_full@ == canonical {
        None
    } else {
        let c = diff_spec(island_of(stored_members(sess->0.last_full@)), island_of(v));
        if changes_empty(c) {
            None
        } else {
            Some(object_text(delta_wire_members(c, fid, hash)))
        }
    }
}

/// `s` is the session after a push of `canonical` (hash `hash`) at `now`, `prev` the one
/// before: identity kept, last state and hash recorded, no forced full state, resend time
/// reset, and a Super Island state awaiting its acknowledgement.
pub open spec fn session_after(
    s: SenderSession,
    prev: Option<SenderSession>,
    uuid: Seq<char>,
    fid: Seq<char>,
    is_media: bool,
    canonical: Seq<char>,
    now: u64,
) -> bool {
    &&& s.device_uuid@ == match prev { Some(p) => p.device_uuid@, None => uuid }
    &&& s.feature_id@ == match prev { Some(p) => p.feature_id@, None => fid }
    &&& s.is_media == match prev { Some(p) => p.is_media, None => is_media }
    &&& s.last_full@ == canonical
    &&& s.last_hash@ == state_hash(canonical)
    &&& !s.force_full_next
    &&& s.last_full_resend_ms == now
    &&& if is_media {
        s.pending_ack is None
    } else {
        s.pending_ack matches Some(p) && p.0@ == state_hash(canonical) && p.1 == now
    }
}

/// The table after storing under `key` a session for which `ok` holds.
pub open spec fn stored_under<V>(before: Seq<(String, V)>, after: Seq<(String, V)>, key: Seq<char>, ok: spec_fn(V) -> bool) -> bool {
    &&& last_value(after, key) matches Some(s) && ok(s)
    &&& forall|o: Seq<char>| o != key ==> #[trigger] last_value(after, o) == last_value(before, o)
}

impl StateMerge {
    /// Sessions by key.
    pub closed spec fn senders_table(&self) -> Seq<(String, SenderSession)> {
        self.senders@
    }

    /// Last full state received, by key.
    pub closed spec fn receivers_table(&self) -> Seq<(String, String)> {
        self.receivers@
    }

    /// An engine with no session.
    pub fn new() -> (r: StateMerge)
        ensures
            r.senders_table().len() == 0,
            r.receivers_table().len() == 0,
    {
        StateMerge { senders: Vec::new(), receivers: Vec::new() }
    }

    /// The session key of a device and feature.
    pub fn key(device_uuid: &str, feature_id: &str) -> (r: String)
        ensures
            r@ == key_of(device_uuid@, feature_id@),
    {
        let mut k = owned(device_uuid);
        push_char(&mut k, '|');
        push_str(&mut k, feature_id);
        assert(k@ =~= key_of(device_uuid@, feature_id@));
        k
    }

    /// Takes a full state (a JSON object) for `remote_uuid` at `now_ms` and enqueues a full
    /// packet, a delta, or nothing (see `push_payload`); the session then records the state.
    /// An end state closes the session. Answers `false` when `full_json` is not a JSON object.
    pub fn push_state(
        &mut self,
        queue: &mut SenderQueue,
        remote_uuid: &str,
        is_media: bool,
        full_json: &str,
        is_end: bool,
        now_ms: u64,
    ) -> (r: bool)
        ensures
            r == json_object_of(full_json@) is Some,
            final(self).receivers_table() == old(self).receivers_table(),
            match json_object_of(full_json@) {
                None => final(self).senders_table() == old(self).senders_table() && *final(queue) == *old(queue),
                Some(v) => {
                    let fid = push_feature_id(v, is_media);
                    let key = key_of(remote_uuid@, fid);
                    let sess = last_value(old(self).senders_table(), key);
                    match push_payload(sess, v, fid, is_media, is_end, now_ms) {
                        None => final(self).senders_table() == old(self).senders_table() && *final(queue) == *old(queue),
                        Some(p) => {
                            &&& enqueued(*old(queue), *final(queue), remote_uuid@, header_of(is_media), p)
                            &&& if is_end {
                                final(self).senders_table() == without_key(old(self).senders_table(), key)
                            } else {
                                stored_under(old(self).senders_table(), final(self).senders_table(), key,
                                    |s: SenderSession| session_after(s, sess, remote_uuid@, fid, is_media, object_text(v), now_ms))
                            }
                        },
                    }
                },
            },
    {
        let full = match parse_object(full_json) {
            Some(v) => v,
            None => return false,
        };
        let ghost v = members_view(full@);
        let feature_id = if is_media {
            owned("media_global")
        } else {
            let pkg = match get_str(&full, "packageName") { Some(x) => x, None => String::new() };
            let param = match get_str(&full, "param_v2_raw") { Some(x) => x, None => String::new() };
            let title = match get_str(&full, "title") { Some(x) => x, None => String::new() };
            let text = match get_str(&full, "text") { Some(x) => x, None => String::new() };
            compute_feature_id(pkg.as_str(), param.as_str(), title.as_str(), text.as_str(), "")
        };
        proof {
            reveal_strlit("");
            assert(""@ =~= Seq::<char>::empty());
        }
        assert(feature_id@ == push_feature_id(v, is_media));
        let key = Self::key(remote_uuid, feature_id.as_str());
        let canonical = write_object(&full);
        let hash = sha256_hex(canonical.as_str());
        let ghost sess = last_value(self.senders@, key@);
        let idx = find_index(&self.senders, key.as_str());
        let prev: Option<SenderSession> = match idx {
            Some(i) => Some(copy_session(&self.senders[i].1)),
            None => None,
        };
        let hb: u64 = if is_media { 6000 } else { 30000 };
        let full_due = match &prev {
            None => true,
            Some(s) => {
                let elapsed: u64 = if now_ms >= s.last_full_resend_ms { now_ms - s.last_full_resend_ms } else { 0 };
                s.last_full.as_str().is_empty() || s.force_full_next || elapsed >= hb
            },
        };
        assert(full_due == sends_full(sess, is_media, now_ms));
        let payload = if full_due {
            build_full_wire(&full, feature_id.as_str(), hash.as_str(), is_end)
        } else {
            let last = match &prev {
                Some(s) => owned(s.last_full.as_str()),
                None => String::new(),
            };
            if str_eq(last.as_str(), canonical.as_str()) {
                return true;
            }
            let old_island = island_from_text(last.as_str());
            let new_island = island_from_members(copy_members(&full));
            let delta = diff_island(&old_island, &new_island);
            if delta_is_empty(&delta) {
                return true;
            }
            build_delta_wire(&delta, feature_id.as_str(), hash.as_str())
        };
        assert(push_payload(sess, v, feature_id@, is_media, is_end, now_ms) == Some(payload@));
        enqueue_state(queue, remote_uuid, is_media, payload);
        let session = match prev {
            Some(s) => SenderSession {
                device_uuid: s.device_uuid,
                feature_id: s.feature_id,
                is_media: s.is_media,
                last_full: canonical,
                last_hash: owned(hash.as_str()),
                pending_ack: if is_media { None } else { Some((hash, now_ms)) },
                force_full_next: false,
                last_full_resend_ms: now_ms,
            },
            None => SenderSession {
                device_uuid: owned(remote_uuid),
                feature_id: owned(feature_id.as_str()),
                is_media,
                last_full: canonical,
                last_hash: owned(hash.as_str()),
                pending_ack: if is_media { None } else { Some((hash, now_ms)) },
                force_full_next: false,
                last_full_resend_ms: now_ms,
            },
        };
        let ghost before = self.senders@;
        if is_end {
            remove_key(&mut self.senders, key.as_str());
        } else {
            let ghost kv = key@;
            insert_key(&mut self.senders, key, session);
            proof {
                let k: String = self.senders@.last().0;
                let s: SenderSession = self.senders@.last().1;
                lemma_insert_key(before, k, s, kv);
                assert forall|o: Seq<char>| o != kv implies #[trigger] last_value(self.senders@, o) == last_value(before, o) by {
                    lemma_insert_key(before, k, s, o);
                }
            }
        }
        true
    }

    /// Clears the pending acknowledgement of a session when `hash` is the one it awaits.
    pub fn handle_ack(&mut self, device_uuid: &str, feature_id: &str, hash: &str)
        ensures
            final(self).receivers_table() == old(self).receivers_table(),
            ({
                let key = key_of(device_uuid@, feature_id@);
                match last_value(old(self).senders_table(), key) {
                    Some(s) if (s.pending_ack matches Some(p) && p.0@ == hash@) => stored_under(
                        old(self).senders_table(),
                        final(self).senders_table(),
                        key,
                        |n: SenderSession| n.pending_ack is None && same_session(n, SenderSession { pending_ack: None, ..s }),
                    ),
                    _ => final(self).senders_table() == old(self).senders_table(),
                }
            }),
    {
        let key = Self::key(device_uuid, feature_id);
        let idx = find_index(&self.senders, key.as_str());
        match idx {
            Some(i) => {
                let matches = match &self.senders[i].1.pending_ack {
                    Some(p) => str_eq(p.0.as_str(), hash),
                    None => false,
                };
                if matches {
                    let mut s = copy_session(&self.senders[i].1);
                    s.pending_ack = None;
                    let k = owned(self.senders[i].0.as_str());
                    let ghost before = self.senders@;
                    let ghost kv = key@;
                    self.senders.set(i, (k, s));
                    proof {
                        lemma_update_found(before, i as int, k, s, kv);
                        assert forall|o: Seq<char>| o != kv implies #[trigger] last_value(self.senders@, o) == last_value(before, o) by {
                            lemma_update_found(before, i as int, k, s, o);
                        }
                    }
                }
            },
            None => {},
        }
    }
}

// ===================== receiving =====================

/// The feature id of an incoming packet: `media_global` for media, else its
/// `featureKeyValue` (empty when missing).
pub open spec fn incoming_fid(v: Seq<(Seq<char>, LeafView)>, is_media: bool) -> Seq<char> {
    if is_media {
        "media_global"@
    } else {
        or_empty(vstr(v, "featureKeyValue"@))
    }
}

/// An incoming packet ends its session: `terminateValue` is `"__END__"` or `terminate` is `true`.
pub open spec fn incoming_end(v: Seq<(Seq<char>, LeafView)>) -> bool {
    vstr(v, "terminateValue"@) == Some("__END__"@) || vmember(v, "terminate"@) == Some(LeafView::Raw("true"@))
}

/// The changes a delta packet carries (none when `changes` is not an object).
pub open spec fn delta_changes(v: Seq<(Seq<char>, LeafView)>) -> ChangesView {
    decode_spec(match vmember(v, "changes"@) {
        Some(LeafView::Raw(t)) => stored_members(t),
        _ => Seq::empty(),
    })
}

/// The island stored under a key (empty when none).
pub open spec fn stored_island(t: Option<String>) -> IslandView {
    island_of(match t {
        Some(x) => stored_members(x@),
        None => Seq::empty(),
    })
}

/// The full state an incoming packet gives: the merge of a delta into the stored state, or
/// the packet itself without routing members. `None` when the packet is not a JSON object,
/// has no feature id, or brings pictures that the stored state cannot take.
pub open spec fn incoming_full(
    stored: Seq<(String, String)>,
    uuid: Seq<char>,
    is_media: bool,
    payload: Seq<char>,
) -> Option<Seq<char>> {
    match json_object_of(payload) {
        None => None,
        Some(v) => {
            let fid = incoming_fid(v, is_media);
            if fid.len() == 0 {
                None
            } else if vstr(v, "type"@) == Some("delta"@) {
                let base = stored_island(last_value(stored, key_of(uuid, fid)));
                if mergeable(base, delta_changes(v)) {
                    Some(island_text(merge_spec(base, delta_changes(v))))
                } else {
                    None
                }
            } else {
                Some(object_text(strip_spec(v)))
            }
        },
    }
}

/// A session due for a resend at `now`: it has sent a state, and the resend interval has
/// passed or (Super Island) its acknowledgement is 4 s late.
pub open spec fn resend_due(s: SenderSession, now: u64) -> bool {
    &&& s.last_full@.len() > 0
    &&& if s.is_media {
        age(now, s.last_full_resend_ms) >= 6000
    } else {
        age(now, s.last_full_resend_ms) >= 30000 || (s.pending_ack matches Some(p) && age(now, p.1) >= 4000)
    }
}

/// The packet resent for a session: its last state as a full packet (`null` when that state
/// is not an object).
pub open spec fn resend_payload(s: SenderSession) -> Seq<char> {
    match json_object_of(s.last_full@) {
        Some(v) => object_text(full_wire_members(v, s.feature_id@, state_hash(s.last_full@), false)),
        None => seq!['n', 'u', 'l', 'l'],
    }
}

/// A session after a resend at `now`: resend time reset, no acknowledgement awaited.
pub open spec fn resent(a: SenderSession, b: SenderSession, now: u64) -> bool {
    &&& a.device_uuid@ == b.device_uuid@
    &&& a.feature_id@ == b.feature_id@
    &&& a.is_media == b.is_media
    &&& a.last_full@ == b.last_full@
    &&& a.last_hash@ == b.last_hash@
    &&& a.force_full_next == b.force_full_next
    &&& a.last_full_resend_ms == now
    &&& if b.is_media {
        match (a.pending_ack, b.pending_ack) {
            (Some(x), Some(y)) => x.0@ == y.0@ && x.1 == y.1,
            (None, None) => true,
            _ => false,
        }
    } else {
        a.pending_ack is None
    }
}

/// Predicate on table entries: the session is due at `now`.
pub open spec fn entry_due(now: u64) -> spec_fn((String, SenderSession)) -> bool {
    |e: (String, SenderSession)| resend_due(e.1, now)
}

/// The sessions after a resend round: each due one resent, the others as they were.
pub open spec fn sessions_after_resend(before: Seq<(String, SenderSession)>, after: Seq<(String, SenderSession)>, now: u64) -> bool {
    &&& after.len() == before.len()
    &&& forall|i: int| 0 <= i < before.len() ==> {
        &&& (#[trigger] after[i]).0@ == before[i].0@
        &&& if resend_due(before[i].1, now) {
            resent(after[i].1, before[i].1, now)
        } else {
            same_session(after[i].1, before[i].1)
        }
    }
}

/// `items` are the resends of the due sessions of `before`, in table order.
pub open spec fn resend_items(before: Seq<(String, SenderSession)>, items: Seq<SendItem>, now: u64) -> bool {
    let due = before.filter(entry_due(now));
    &&& items.len() == due.len()
    &&& forall|j: int| 0 <= j < items.len() ==> {
        &&& (#[trigger] items[j]).device_uuid@ == due[j].1.device_uuid@
        &&& items[j].header@ == header_of(due[j].1.is_media)
        &&& items[j].plaintext@ == resend_payload(due[j].1)
        &&& items[j].dedup_key is None
        &&& items[j].retries_left == 0
        &&& items[j].coalesce_key is None
    }
}

/// The queue contents after enqueuing `items` one by one, through the states `qs`.
pub open spec fn enqueue_chain(qs: Seq<Seq<SendItem>>, items: Seq<SendItem>) -> bool {
    &&& qs.len() == items.len() + 1
    &&& forall|j: int| 0 <= j < items.len() ==> {
        &&& (#[trigger] qs[j + 1]).len() > 0
        &&& crate::sender_queue::prepared(items[j], qs[j + 1].last())
        &&& qs[j + 1].drop_last() == kept_for(qs[j], qs[j + 1].last())
    }
}

/// The queue after `items` were enqueued in order (its other tables unchanged).
pub open spec fn enqueued_all(before: SenderQueue, after: SenderQueue, items: Seq<SendItem>) -> bool {
    &&& exists|qs: Seq<Seq<SendItem>>| #[trigger] enqueue_chain(qs, items) && qs[0] == before.queued() && qs.last() == after.queued()
    &&& after.in_flight_table() == before.in_flight_table()
    &&& after.busy_table() == before.busy_table()
    &&& after.cooldown_table() == before.cooldown_table()
    &&& after.streak_table() == before.streak_table()
    &&& after.is_running_spec() == before.is_running_spec()
    &&& after.active_spec() == before.active_spec()
}

/// What the platform is handed for an incoming state packet.
pub struct StateMessageOutcome {
    /// Whether the engine took the message (else it goes the general data way).
    pub consumed: bool,
    /// The full packet to deliver as `SUPERISLAND` / `MEDIAPLAY` data.
    pub deliver: Option<String>,
    /// The acknowledgement to send back (Super Island states that do not end a session).
    pub ack: Option<SendItem>,
}

/// The acknowledgement text of a Super Island state.
pub open spec fn ack_text(uuid: Seq<char>, fid: Seq<char>, hash: Seq<char>) -> Seq<char> {
    object_text(seq![
        ("device"@, LeafView::Str(uuid)),
        ("featureKeyValue"@, LeafView::Str(fid)),
        ("hash"@, LeafView::Str(hash)),
        ("type"@, LeafView::Str("SI_ACK"@)),
    ])
}

impl StateMerge {
    /// Receiver side: turns a decrypted packet (full or delta) into the full state, records it
    /// under its key (an end packet drops the key) and answers the feature id, the full state
    /// and whether the session ended. `None` when the packet is not a JSON object, has no
    /// feature id, or brings pictures while the stored state has a `pics` member that is not
    /// an object (nothing is recorded then).
    pub fn merge_incoming(&mut self, device_uuid: &str, is_media: bool, payload: &str) -> (r: Option<(String, String, bool)>)
        ensures
            final(self).senders_table() == old(self).senders_table(),
            match incoming_full(old(self).receivers_table(), device_uuid@, is_media, payload@) {
                None => r is None && final(self).receivers_table() == old(self).receivers_table(),
                Some(full) => {
                    let v = json_object_of(payload@)->0;
                    let fid = incoming_fid(v, is_media);
                    let key = key_of(device_uuid@, fid);
                    &&& r matches Some(t) && t.0@ == fid && t.1@ == full && t.2 == incoming_end(v)
                    &&& if incoming_end(v) {
                        final(self).receivers_table() == without_key(old(self).receivers_table(), key)
                    } else {
                        stored_under(old(self).receivers_table(), final(self).receivers_table(), key, |x: String| x@ == full)
                    }
                },
            },
    {
        let v = match parse_object(payload) {
            Some(v) => v,
            None => return None,
        };
        let feature_id = if is_media {
            owned("media_global")
        } else {
            match get_str(&v, "featureKeyValue") {
                Some(f) => f,
                None => String::new(),
            }
        };
        if feature_id.as_str().is_empty() {
            return None;
        }
        let key = Self::key(device_uuid, feature_id.as_str());
        let end_value = match get_str(&v, "terminateValue") {
            Some(t) => str_eq(t.as_str(), "__END__"),
            None => false,
        };
        let terminate = match get_member(&v, "terminate") {
            Some(JsonLeaf::Raw(t)) => str_eq(t.as_str(), "true"),
            _ => false,
        };
        let is_end = end_value || terminate;
        let is_delta = match get_str(&v, "type") {
            Some(t) => str_eq(t.as_str(), "delta"),
            None => false,
        };
        let new_full = if is_delta {
            let changes_members = match get_member(&v, "changes") {
                Some(JsonLeaf::Raw(t)) => match parse_object(t.as_str()) {
                    Some(m) => m,
                    None => Vec::new(),
                },
                _ => Vec::new(),
            };
            assert(members_view(changes_members@) == match vmember(members_view(v@), "changes"@) {
                Some(LeafView::Raw(t)) => stored_members(t),
                _ => Seq::<(Seq<char>, LeafView)>::empty(),
            });
            let changes = decode_changes(&changes_members);
            let base = match find_index(&self.receivers, key.as_str()) {
                Some(i) => island_from_text(self.receivers[i].1.as_str()),
                None => {
                    let e = IslandState { fields: Vec::new(), pics: None };
                    assert(e@.fields =~= Seq::<(Seq<char>, LeafView)>::empty());
                    e
                },
            };
            assert(base@ == stored_island(last_value(self.receivers@, key@)));
            if changes.pics.is_some() && get_member(&base.fields, "pics").is_some() {
                return None;
            }
            let merged = merge_island(&base, &changes);
            write_island(&merged)
        } else {
            let stripped = strip_routing(&v);
            write_object(&stripped)
        };
        let ghost before = self.receivers@;
        if is_end {
            remove_key(&mut self.receivers, key.as_str());
        } else {
            let ghost kv = key@;
            insert_key(&mut self.receivers, key, owned(new_full.as_str()));
            proof {
                let k: String = self.receivers@.last().0;
                let x: String = self.receivers@.last().1;
                lemma_insert_key(before, k, x, kv);
                assert forall|o: Seq<char>| o != kv implies #[trigger] last_value(self.receivers@, o) == last_value(before, o) by {
                    lemma_insert_key(before, k, x, o);
                }
            }
        }
        Some((feature_id, new_full, is_end))
    }
}

impl StateMerge {
    /// The resend round at `now`: every due session (see `resend_due`) gets its last state
    /// resent as a full packet; its resend time is reset and a Super Island session stops
    /// awaiting its acknowledgement. Answers the packets, in table order.
    pub fn collect_resends(&mut self, now_ms: u64) -> (r: Vec<SendItem>)
        ensures
            sessions_after_resend(old(self).senders_table(), final(self).senders_table(), now_ms),
            resend_items(old(self).senders_table(), r@, now_ms),
            final(self).receivers_table() == old(self).receivers_table(),
    {
        let ghost orig = self.senders@;
        let mut out: Vec<SendItem> = Vec::new();
        let mut i: usize = 0;
        assert(orig.take(0).filter(entry_due(now_ms)) =~= Seq::<(String, SenderSession)>::empty()) by {
            reveal(Seq::filter);
        }
        while i < self.senders.len()
            invariant
                i <= self.senders.len(),
                self.senders@.len() == orig.len(),
                self.receivers@ == old(self).receivers@,
                orig == old(self).senders@,
                forall|j: int| 0 <= j < i ==> {
                    &&& (#[trigger] self.senders@[j]).0@ == orig[j].0@
                    &&& if resend_due(orig[j].1, now_ms) {
                        resent(self.senders@[j].1, orig[j].1, now_ms)
                    } else {
                        same_session(self.senders@[j].1, orig[j].1)
                    }
                },
                forall|j: int| i <= j < orig.len() ==> #[trigger] self.senders@[j] == orig[j],
                resend_items(orig.take(i as int), out@, now_ms),
            decreases self.senders.len() - i,
        {
            let ghost due_before = orig.take(i as int).filter(entry_due(now_ms));
            proof {
                assert(orig.take(i + 1) =~= orig.take(i as int).push(orig[i as int]));
                orig.take(i as int).lemma_filter_push(orig[i as int], entry_due(now_ms));
            }
            let s = copy_session(&self.senders[i].1);
            let elapsed: u64 = if now_ms >= s.last_full_resend_ms { now_ms - s.last_full_resend_ms } else { 0 };
            let need = if s.last_full.as_str().is_empty() {
                false
            } else if s.is_media {
                elapsed >= 6000
            } else {
                let ack_late = match &s.pending_ack {
                    Some(p) => {
                        let waited: u64 = if now_ms >= p.1 { now_ms - p.1 } else { 0 };
                        waited >= 4000
                    },
                    None => false,
                };
                elapsed >= 30000 || ack_late
            };
            assert(need == resend_due(orig[i as int].1, now_ms));
            if need {
                let payload = match parse_object(s.last_full.as_str()) {
                    Some(v) => {
                        let hash = sha256_hex(s.last_full.as_str());
                        build_full_wire(&v, s.feature_id.as_str(), hash.as_str(), false)
                    },
                    None => {
                        let mut n = String::new();
                        push_char(&mut n, 'n');
                        push_char(&mut n, 'u');
                        push_char(&mut n, 'l');
                        push_char(&mut n, 'l');
                        assert(n@ =~= seq!['n', 'u', 'l', 'l']);
                        n
                    },
                };
                let header = if s.is_media { "DATA_MEDIAPLAY" } else { "DATA_SUPERISLAND" };
                let item = SendItem {
                    device_uuid: owned(s.device_uuid.as_str()),
                    header: owned(header),
                    plaintext: payload,
                    dedup_key: None,
                    retries_left: 0,
                    coalesce_key: None,
                };
                let ghost out_before = out@;
                out.push(item);
                let mut n = s;
                n.last_full_resend_ms = now_ms;
                if !n.is_media {
                    n.pending_ack = None;
                }
                let k = owned(self.senders[i].0.as_str());
                self.senders.set(i, (k, n));
                proof {
                    let due = orig.take(i + 1).filter(entry_due(now_ms));
                    assert(due == due_before.push(orig[i as int]));
                    assert forall|j: int| 0 <= j < out@.len() implies {
                        &&& (#[trigger] out@[j]).device_uuid@ == due[j].1.device_uuid@
                        &&& out@[j].header@ == header_of(due[j].1.is_media)
                        &&& out@[j].plaintext@ == resend_payload(due[j].1)
                        &&& out@[j].dedup_key is None
                        &&& out@[j].retries_left == 0
                        &&& out@[j].coalesce_key is None
                    } by {
                        if j < out_before.len() {
                            assert(out@[j] == out_before[j]);
                            assert(due[j] == due_before[j]);
                        }
                    }
                }
            } else {
                proof {
                    assert(orig.take(i + 1).filter(entry_due(now_ms)) == due_before);
                }
            }
            i = i + 1;
        }
        assert(orig.take(orig.len() as int) =~= orig);
        out
    }

    /// The resend round at `now`, with the packets enqueued in table order.
    pub fn heartbeat_tick(&mut self, queue: &mut SenderQueue, now_ms: u64)
        ensures
            sessions_after_resend(old(self).senders_table(), final(self).senders_table(), now_ms),
            final(self).receivers_table() == old(self).receivers_table(),
            exists|items: Seq<SendItem>| #[trigger] resend_items(old(self).senders_table(), items, now_ms)
                && enqueued_all(*old(queue), *final(queue), items),
    {
        let mut items = self.collect_resends(now_ms);
        let ghost all = items@;
        let ghost q0 = *queue;
        let ghost mut qs: Seq<Seq<SendItem>> = seq![queue.queued()];
        let ghost mut k: int = 0;
        assert(all.skip(0) =~= all);
        while items.len() > 0
            invariant
                0 <= k <= all.len(),
                items@ == all.skip(k),
                qs.len() == k + 1,
                qs[0] == q0.queued(),
                qs.last() == queue.queued(),
                enqueue_chain(qs, all.take(k)),
                queue.in_flight_table() == q0.in_flight_table(),
                queue.busy_table() == q0.busy_table(),
                queue.cooldown_table() == q0.cooldown_table(),
                queue.streak_table() == q0.streak_table(),
                queue.is_running_spec() == q0.is_running_spec(),
                queue.active_spec() == q0.active_spec(),
            decreases items.len(),
        {
            let item = items.remove(0);
            assert(item == all[k]);
            let ghost before = queue.queued();
            queue.enqueue(item);
            proof {
                let qs2 = qs.push(queue.queued());
                let t2 = all.take(k + 1);
                assert(t2 =~= all.take(k).push(all[k]));
                assert forall|j: int| 0 <= j < t2.len() implies {
                    &&& (#[trigger] qs2[j + 1]).len() > 0
                    &&& crate::sender_queue::prepared(t2[j], qs2[j + 1].last())
                    &&& qs2[j + 1].drop_last() == kept_for(qs2[j], qs2[j + 1].last())
                } by {
                    if j < k {
                        assert(qs2[j + 1] == qs[j + 1]);
                        assert(qs2[j] == qs[j]);
                        assert(t2[j] == all.take(k)[j]);
                    } else {
                        assert(qs2[j] == before);
                    }
                }
                qs = qs2;
                k = k + 1;
                assert(items@ =~= all.skip(k));
            }
        }
        assert(all.take(k) =~= all);
        assert(enqueue_chain(qs, all) && qs[0] == q0.queued() && qs.last() == queue.queued());
    }
}

impl StateMerge {
    /// Receiver side of a decrypted state packet from `uuid`. An `SI_ACK` clears the pending
    /// acknowledgement it names and is consumed. Another packet is merged (see
    /// `merge_incoming`); when that gives nothing the packet is not consumed. Otherwise the
    /// full state is delivered as a full packet (with the hash of the full state), and a Super
    /// Island packet that does not end its session and carries a `hash` is answered with an
    /// acknowledgement.
    pub fn handle_state_message(&mut self, uuid: &str, is_media: bool, plaintext: &str) -> (r: StateMessageOutcome)
        ensures
            match json_object_of(plaintext@) {
                None => !r.consumed && r.deliver is None && r.ack is None && *final(self) == *old(self),
                Some(v) => if vstr(v, "type"@) == Some("SI_ACK"@) {
                    &&& r.consumed && r.deliver is None && r.ack is None
                    &&& final(self).receivers_table() == old(self).receivers_table()
                } else {
                    match incoming_full(old(self).receivers_table(), uuid@, is_media, plaintext@) {
                        None => !r.consumed && r.deliver is None && r.ack is None
                            && final(self).receivers_table() == old(self).receivers_table(),
                        Some(full) => {
                            let fid = incoming_fid(v, is_media);
                            let end = incoming_end(v);
                            &&& r.consumed
                            &&& r.deliver matches Some(w) && w@ == object_text(full_wire_members(
                                stored_members(full), fid, state_hash(full), end))
                            &&& match r.ack {
                                Some(a) => !is_media && !end && vstr(v, "hash"@) is Some
                                    && a.device_uuid@ == uuid@ && a.header@ == "DATA_SUPERISLAND"@
                                    && a.plaintext@ == ack_text(uuid@, fid, vstr(v, "hash"@)->0)
                                    && a.dedup_key is None && a.retries_left == 0 && a.coalesce_key is None,
                                None => is_media || end || vstr(v, "hash"@) is None,
                            }
                        },
                    }
                },
            },
    {
        let v = match parse_object(plaintext) {
            Some(v) => v,
            None => return StateMessageOutcome { consumed: false, deliver: None, ack: None },
        };
        let is_ack = match get_str(&v, "type") {
            Some(t) => str_eq(t.as_str(), "SI_ACK"),
            None => false,
        };
        if is_ack {
            let fid = match get_str(&v, "featureKeyValue") { Some(x) => x, None => String::new() };
            let hash = match get_str(&v, "hash") { Some(x) => x, None => String::new() };
            self.handle_ack(uuid, fid.as_str(), hash.as_str());
            return StateMessageOutcome { consumed: true, deliver: None, ack: None };
        }
        let merged = self.merge_incoming(uuid, is_media, plaintext);
        let (fid, full, is_end) = match merged {
            Some(t) => t,
            None => return StateMessageOutcome { consumed: false, deliver: None, ack: None },
        };
        let wire_members = match parse_object(full.as_str()) {
            Some(m) => m,
            None => Vec::new(),
        };
        assert(members_view(wire_members@) == stored_members(full@));
        let wire_hash = sha256_hex(full.as_str());
        let wire = build_full_wire(&wire_members, fid.as_str(), wire_hash.as_str(), is_end);
        let ack = if !is_media && !is_end {
            match get_str(&v, "hash") {
                Some(h) => {
                    let mut ms: Vec<(String, JsonLeaf)> = Vec::new();
                    ms.push((owned("device"), JsonLeaf::Str(owned(uuid))));
                    ms.push((owned("featureKeyValue"), JsonLeaf::Str(owned(fid.as_str()))));
                    ms.push((owned("hash"), JsonLeaf::Str(h)));
                    ms.push((owned("type"), JsonLeaf::Str(owned("SI_ACK"))));
                    let text = write_object(&ms);
                    assert(members_view(ms@) =~= seq![
                        ("device"@, LeafView::Str(uuid@)),
                        ("featureKeyValue"@, LeafView::Str(fid@)),
                        ("hash"@, LeafView::Str(vstr(members_view(v@), "hash"@)->0)),
                        ("type"@, LeafView::Str("SI_ACK"@)),
                    ]);
                    Some(SendItem {
                        device_uuid: owned(uuid),
                        header: owned("DATA_SUPERISLAND"),
                        plaintext: text,
                        dedup_key: None,
                        retries_left: 0,
                        coalesce_key: None,
                    })
                },
                None => None,
            }
        } else {
            None
        };
        StateMessageOutcome { consumed: true, deliver: Some(wire), ack }
    }
}

impl Default for StateMerge {
    fn default() -> (r: StateMerge)
        ensures
            r.senders_table().len() == 0,
            r.receivers_table().len() == 0,
    {
        StateMerge::new()
    }
}

// ===================== the delta law =====================

/// No two members share a name.
pub open spec fn distinct_names(s: Seq<(Seq<char>, LeafView)>) -> bool {
    forall|i: int, j: int| 0 <= i < j < s.len() ==> (#[trigger] s[i]).0 != (#[trigger] s[j]).0
}

proof fn lemma_apply_pics(p: Seq<(Seq<char>, LeafView)>, pn: Seq<(Seq<char>, LeafView)>, k: Seq<char>)
    ensures
        vmember(apply_pics(p, pn), k) == match vmember(pn, k) {
            Some(v) => if pic_dropped(v) { None } else { Some(v) },
            None => vmember(p, k),
        },
    decreases pn.len(),
{
    if pn.len() > 0 {
        lemma_apply_pics(p, pn.drop_last(), k);
        let q = apply_pics(p, pn.drop_last());
        let e = pn.last();
        if pic_dropped(e.1) {
            lemma_vmember_without(q, e.0, k);
        } else {
            lemma_vmember_put(q, e.0, e.1, k);
        }
    }
}

proof fn lemma_apply_removed(p: Seq<(Seq<char>, LeafView)>, items: Seq<LeafView>, k: Seq<char>)
    ensures
        vmember(apply_removed(p, items), k) == if items.contains(LeafView::Str(k)) { None } else { vmember(p, k) },
    decreases items.len(),
{
    if items.len() > 0 {
        let init = items.drop_last();
        lemma_apply_removed(p, init, k);
        let q = apply_removed(p, init);
        assert(items =~= init.push(items.last()));
        assert(items.contains(LeafView::Str(k)) == (init.contains(LeafView::Str(k)) || items.last() == LeafView::Str(k))) by {
            if init.contains(LeafView::Str(k)) {
                let i = choose|i: int| 0 <= i < init.len() && init[i] == LeafView::Str(k);
                assert(items[i] == init[i]);
            }
            if items.last() == LeafView::Str(k) {
                assert(items[items.len() - 1] == LeafView::Str(k));
            }
            if items.contains(LeafView::Str(k)) {
                let i = choose|i: int| 0 <= i < items.len() && items[i] == LeafView::Str(k);
                if i < items.len() - 1 {
                    assert(init[i] == items[i]);
                }
            }
        }
        match items.last() {
            LeafView::Str(n) => lemma_vmember_without(q, n, k),
            _ => {},
        }
    }
}

proof fn lemma_vmember_absent(s: Seq<(Seq<char>, LeafView)>, k: Seq<char>)
    ensures
        vmember(s, k) is None <==> forall|i: int| 0 <= i < s.len() ==> (#[trigger] s[i]).0 != k,
    decreases s.len(),
{
    if s.len() > 0 {
        lemma_vmember_absent(s.drop_last(), k);
        assert forall|i: int| 0 <= i < s.len() - 1 implies s.drop_last()[i] == s[i] by {}
    }
}

proof fn lemma_filter_distinct(s: Seq<(Seq<char>, LeafView)>, pred: spec_fn((Seq<char>, LeafView)) -> bool, k: Seq<char>)
    requires
        distinct_names(s),
    ensures
        vmember(s.filter(pred), k) == match vmember(s, k) {
            Some(v) => if pred((k, v)) { Some(v) } else { None },
            None => None,
        },
    decreases s.len(),
{
    if s.len() > 0 {
        let init = s.drop_last();
        let e = s.last();
        assert forall|i: int, j: int| 0 <= i < j < init.len() implies (#[trigger] init[i]).0 != (#[trigger] init[j]).0 by {
            assert(init[i] == s[i] && init[j] == s[j]);
        }
        lemma_filter_distinct(init, pred, k);
        crate::vecmap::lemma_filter_step(s, pred);
        if e.0 == k {
            assert forall|i: int| 0 <= i < init.len() implies (#[trigger] init[i]).0 != k by {
                assert(init[i] == s[i]);
                assert(s[i].0 != s[s.len() - 1].0);
            }
            lemma_vmember_absent(init, k);
        }
    }
}

proof fn lemma_removed_names(op: Seq<(Seq<char>, LeafView)>, np: Seq<(Seq<char>, LeafView)>, k: Seq<char>)
    ensures
        op.filter(pic_gone(np)).map_values(|e: (Seq<char>, LeafView)| pic_name(e)).contains(LeafView::Str(k))
            == (vmember(op, k) is Some && vmember(np, k) is None),
    decreases op.len(),
{
    let f = |e: (Seq<char>, LeafView)| pic_name(e);
    let target = LeafView::Str(k);
    if op.len() == 0 {
        assert(op.filter(pic_gone(np)) =~= Seq::<(Seq<char>, LeafView)>::empty()) by {
            reveal(Seq::filter);
        }
        assert(!op.filter(pic_gone(np)).map_values(f).contains(target));
    } else {
        let init = op.drop_last();
        let e = op.last();
        lemma_removed_names(init, np, k);
        crate::vecmap::lemma_filter_step(op, pic_gone(np));
        let a = init.filter(pic_gone(np)).map_values(f);
        if pic_gone(np)(e) {
            let b = op.filter(pic_gone(np)).map_values(f);
            assert(b =~= a.push(f(e)));
            assert(b.contains(target) == (a.contains(target) || f(e) == target)) by {
                if a.contains(target) {
                    let i = choose|i: int| 0 <= i < a.len() && a[i] == target;
                    assert(b[i] == a[i]);
                }
                if f(e) == target {
                    assert(b[b.len() - 1] == target);
                }
                if b.contains(target) {
                    let i = choose|i: int| 0 <= i < b.len() && b[i] == target;
                    if i < b.len() - 1 {
                        assert(a[i] == b[i]);
                    }
                }
            }
            if e.0 != k {
                assert(f(e) != target);
            }
        } else {
            if e.0 == k {
                assert(vmember(np, k) is Some);
            }
        }
    }
}

/// A delta carries what is needed to rebuild a state: merging `diff(old, new)` into `old`
/// gives the title, text and `param_v2_raw` of `new` and exactly its pictures. This holds
/// when a field that `new` lacks is also missing in `old` (else the merged state holds it
/// empty), when no picture of `new` is null or empty (a delta removes those), when the
/// pictures of `new` have distinct names, and when the delta can be merged into `old`.
pub proof fn law_delta_restores_state(old: IslandView, new: IslandView)
    requires
        island_wf(old),
        vstr(new.fields, "title"@) is None ==> vstr(old.fields, "title"@) is None,
        vstr(new.fields, "text"@) is None ==> vstr(old.fields, "text"@) is None,
        vstr(new.fields, "param_v2_raw"@) is None ==> vstr(old.fields, "param_v2_raw"@) is None,
        forall|i: int| 0 <= i < pics_map(new).len() ==> !pic_dropped((#[trigger] pics_map(new)[i]).1),
        distinct_names(pics_map(new)),
        mergeable(old, diff_spec(old, new)),
    ensures
        vstr(merge_spec(old, diff_spec(old, new)).fields, "title"@) == vstr(new.fields, "title"@),
        vstr(merge_spec(old, diff_spec(old, new)).fields, "text"@) == vstr(new.fields, "text"@),
        vstr(merge_spec(old, diff_spec(old, new)).fields, "param_v2_raw"@) == vstr(new.fields, "param_v2_raw"@),
        forall|k: Seq<char>|
            vmember(pics_map(merge_spec(old, diff_spec(old, new))), k) == #[trigger] vmember(pics_map(new), k),
{
    let c = diff_spec(old, new);
    let m = merge_spec(old, c);
    reveal_strlit("title");
    reveal_strlit("text");
    reveal_strlit("param_v2_raw");
    let f0 = old.fields;
    let f1 = apply_field(f0, "title"@, c.title);
    let f2 = apply_field(f1, "text"@, c.text);
    assert("title"@.len() != "text"@.len());
    assert("title"@.len() != "param_v2_raw"@.len());
    assert("text"@.len() != "param_v2_raw"@.len());
    // title
    lemma_apply_field_keeps(f2, "param_v2_raw"@, c.param, "title"@);
    lemma_apply_field_keeps(f1, "text"@, c.text, "title"@);
    match c.title {
        Some(v) => lemma_vmember_put(f0, "title"@, v, "title"@),
        None => {},
    }
    // text
    lemma_apply_field_keeps(f2, "param_v2_raw"@, c.param, "text"@);
    match c.text {
        Some(v) => lemma_vmember_put(f1, "text"@, v, "text"@),
        None => lemma_apply_field_keeps(f0, "title"@, c.title, "text"@),
    }
    if c.text is Some {
        lemma_apply_field_keeps(f0, "title"@, c.title, "text"@);
    }
    // param
    match c.param {
        Some(v) => lemma_vmember_put(f2, "param_v2_raw"@, v, "param_v2_raw"@),
        None => {},
    }
    lemma_apply_field_keeps(f0, "title"@, c.title, "param_v2_raw"@);
    lemma_apply_field_keeps(f1, "text"@, c.text, "param_v2_raw"@);
    // pictures
    let op = pics_map(old);
    let np = pics_map(new);
    let changed = np.filter(pic_changed(op));
    let removed = op.filter(pic_gone(np)).map_values(|e: (Seq<char>, LeafView)| pic_name(e));
    assert forall|k: Seq<char>| vmember(pics_map(m), k) == #[trigger] vmember(np, k) by {
        lemma_filter_distinct(np, pic_changed(op), k);
        lemma_apply_pics(op, changed, k);
        lemma_removed_names(op, np, k);
        let after = if changed.len() > 0 { apply_pics(op, changed) } else { op };
        if removed.len() > 0 {
            lemma_apply_removed(after, removed, k);
        }
        lemma_last_value_index(np, k);
        if changed.len() == 0 && vmember(np, k) is Some {
            lemma_filter_len_zero(np, pic_changed(op), k);
        }
        if old.pics is None && changed.len() == 0 {
            assert(op =~= Seq::<(Seq<char>, LeafView)>::empty());
        }
    }
}

proof fn lemma_last_value_index(s: Seq<(Seq<char>, LeafView)>, k: Seq<char>)
    ensures
        vmember(s, k) matches Some(v) ==> exists|i: int| 0 <= i < s.len() && #[trigger] s[i] == (k, v),
    decreases s.len(),
{
    if s.len() > 0 {
        lemma_last_value_index(s.drop_last(), k);
        if s.last().0 != k {
            if let Some(v) = vmember(s, k) {
                let i = choose|i: int| 0 <= i < s.drop_last().len() && #[trigger] s.drop_last()[i] == (k, v);
                assert(s[i] == s.drop_last()[i]);
            }
        } else {
            assert(s[s.len() - 1] == s.last());
        }
    }
}

proof fn lemma_filter_len_zero(s: Seq<(Seq<char>, LeafView)>, pred: spec_fn((Seq<char>, LeafView)) -> bool, k: Seq<char>)
    requires
        s.filter(pred).len() == 0,
    ensures
        forall|i: int| 0 <= i < s.len() ==> !pred(#[trigger] s[i]),
    decreases s.len(),
{
    if s.len() > 0 {
        crate::vecmap::lemma_filter_step(s, pred);
        lemma_filter_len_zero(s.drop_last(), pred, k);
        assert forall|i: int| 0 <= i < s.len() implies !pred(#[trigger] s[i]) by {
            if i < s.len() - 1 {
                assert(s[i] == s.drop_last()[i]);
            }
        }
    }
}

} // verus!
