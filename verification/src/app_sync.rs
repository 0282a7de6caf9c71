//! App list and icon synchronisation: which icons to request, and the pending requests.
use vstd::prelude::*;
use vstd::string::*;
use crate::protocol::binary_codec::{json_string, json_string_array, push_json_key, push_json_str_array, push_json_str_field, push_json_int_field};
use crate::text::{dec_int, owned, push_char, push_str, str_eq};
use crate::vecmap::{has_key, insert_key, last_value, lookup, remove_key, retain_vec, without_key};
use crate::json_model::{
    JsonLeaf, LeafView, array_text, get_member, get_str, items_view, json_array_of, json_object_of, members_view,
    object_text, parse_array, parse_object, vmember, vstr, write_array, write_object,
};
use crate::text::{parse_i64_text, push_dec, push_int};

verus! {

/// How long (ms) an icon request stays pending.
pub const ICON_REQUEST_TIMEOUT_MS: i64 = 10000;

/// Pending icon requests.
pub struct AppSyncState {
    /// package -> time (ms) of its request.
    pub pending_icons: Vec<(String, i64)>,
}

/// Whether a text list holds `k`.
pub open spec fn names_have(l: Seq<String>, k: Seq<char>) -> bool {
    exists|i: int| 0 <= i < l.len() && (#[trigger] l[i])@ == k
}

/// The devices a package is associated with: the first entry of that package, if any.
pub open spec fn association(m: Seq<(String, Vec<String>)>, pkg: Seq<char>) -> Option<Seq<String>>
    decreases m.len(),
{
    if m.len() == 0 {
        None
    } else if m[0].0@ == pkg {
        Some(m[0].1@)
    } else {
        association(m.drop_first(), pkg)
    }
}

/// Whether the icon of `pkg` should be requested from `source`: not cached, not installed
/// here, not requested less than `ICON_REQUEST_TIMEOUT_MS` ago, and associated with no
/// device, with none, or with `source`.
pub open spec fn should_request_spec(
    pkg: Seq<char>,
    installed: Seq<String>,
    cached: Seq<String>,
    app_device: Seq<(String, Vec<String>)>,
    source: Seq<char>,
    now: i64,
    pending: Seq<(String, i64)>,
) -> bool {
    &&& !names_have(cached, pkg)
    &&& !names_have(installed, pkg)
    &&& !(last_value(pending, pkg) matches Some(ts) && now - ts < ICON_REQUEST_TIMEOUT_MS)
    &&& match association(app_device, pkg) {
        None => true,
        Some(uuids) => uuids.len() == 0 || names_have(uuids, source),
    }
}

/// Predicate: a pending request younger than the time-out at `now`.
pub open spec fn still_pending(now: i64) -> spec_fn((String, i64)) -> bool {
    |e: (String, i64)| now - e.1 < ICON_REQUEST_TIMEOUT_MS
}

/// `m` with each of `keys` stored with time `now`, in order.
pub open spec fn insert_all(m: Seq<(String, i64)>, keys: Seq<String>, now: i64) -> Seq<(String, i64)>
    decreases keys.len(),
{
    if keys.len() == 0 {
        m
    } else {
        without_key(insert_all(m, keys.drop_last(), now), keys.last()@).push((keys.last(), now))
    }
}

/// `m` with each of `keys` taken out.
pub open spec fn remove_all(m: Seq<(String, i64)>, keys: Seq<String>) -> Seq<(String, i64)>
    decreases keys.len(),
{
    if keys.len() == 0 {
        m
    } else {
        without_key(remove_all(m, keys.drop_last()), keys.last()@)
    }
}

/// The icon request for the packages `need`: `{}` for none, else
/// `{"packageName":..,"time":..,"type":"ICON_REQUEST"}` for one and
/// `{"packageNames":[..],"time":..,"type":"ICON_REQUEST"}` for more (keys sorted).
pub open spec fn icon_request_json(need: Seq<Seq<char>>, now: i64) -> Seq<char> {
    if need.len() == 0 {
        "{}"@
    } else {
        seq!['{'] + (if need.len() == 1 {
            json_string("packageName"@) + seq![':'] + json_string(need[0])
        } else {
            json_string("packageNames"@) + seq![':'] + json_string_array(need)
        }) + seq![','] + json_string("time"@) + seq![':'] + dec_int(now as int)
            + seq![','] + json_string("type"@) + seq![':'] + json_string("ICON_REQUEST"@) + seq!['}']
    }
}

fn names_contain(l: &[String], k: &str) -> (r: bool)
    ensures
        r == names_have(l@, k@),
{
    let mut i: usize = 0;
    while i < l.len()
        invariant
            i <= l.len(),
            forall|j: int| 0 <= j < i ==> (#[trigger] l@[j])@ != k@,
        decreases l.len() - i,
    {
        if str_eq(l[i].as_str(), k) {
            return true;
        }
        i = i + 1;
    }
    false
}

fn find_association(m: &Vec<(String, Vec<String>)>, pkg: &str) -> (r: Option<usize>)
    ensures
        match r {
            Some(i) => i < m@.len() && association(m@, pkg@) == Some(m@[i as int].1@),
            None => association(m@, pkg@) is None,
        },
{
    let mut i: usize = 0;
    assert(m@.skip(0) =~= m@);
    while i < m.len()
        invariant
            i <= m.len(),
            association(m@, pkg@) == association(m@.skip(i as int), pkg@),
        decreases m.len() - i,
    {
        assert(m@.skip(i as int).drop_first() =~= m@.skip(i + 1));
        assert(m@.skip(i as int)[0] == m@[i as int]);
        if str_eq(m[i].0.as_str(), pkg) {
            return Some(i);
        }
        i = i + 1;
    }
    None
}

impl AppSyncState {
    /// No pending request.
    pub fn new() -> (r: AppSyncState)
        ensures
            r.pending_icons@.len() == 0,
    {
        AppSyncState { pending_icons: Vec::new() }
    }
}

impl Default for AppSyncState {
    fn default() -> (r: AppSyncState)
        ensures
            r.pending_icons@.len() == 0,
    {
        AppSyncState::new()
    }
}

/// Whether the icon of `pkg` should be requested; see `should_request_spec`.
pub fn should_request_icon(
    pkg: &str,
    installed: &[String],
    cached: &[String],
    app_device: &Vec<(String, Vec<String>)>,
    source_device_uuid: &str,
    now: i64,
    pending: &Vec<(String, i64)>,
) -> (r: bool)
    ensures
        r == should_request_spec(pkg@, installed@, cached@, app_device@, source_device_uuid@, now, pending@),
{
    if names_contain(cached, pkg) {
        return false;
    }
    if names_contain(installed, pkg) {
        return false;
    }
    match lookup(pending, pkg) {
        Some(ts) => {
            if (now as i128) - (ts as i128) < (ICON_REQUEST_TIMEOUT_MS as i128) {
                return false;
            }
        },
        None => {},
    }
    match find_association(app_device, pkg) {
        None => true,
        Some(i) => app_device[i].1.len() == 0 || names_contain(app_device[i].1.as_slice(), source_device_uuid),
    }
}

/// Filters the packages whose icons to request at time `now` and builds the request.
///
/// Requests older than `ICON_REQUEST_TIMEOUT_MS` are dropped first; the packages that
/// should be requested (see `should_request_spec`, judged against the pending requests
/// before this call adds any) are then marked pending at `now`. Answers `{}` when none.
pub fn prepare_icon_request(
    state: &mut AppSyncState,
    packages: &[String],
    installed: &[String],
    cached: &[String],
    app_device: &Vec<(String, Vec<String>)>,
    source_device_uuid: &str,
    now: i64,
) -> (r: String)
    ensures
        ({
            let pending = old(state).pending_icons@.filter(still_pending(now));
            let need = packages@.filter(|p: String| should_request_spec(p@, installed@, cached@, app_device@, source_device_uuid@, now, pending));
            &&& r@ == icon_request_json(need.map_values(|p: String| p@), now)
            &&& final(state).pending_icons@ == insert_all(pending, need, now)
        }),
{
    let keep = |e: &(String, i64)| -> (b: bool)
        ensures
            b == still_pending(now)(*e),
        { (now as i128) - (e.1 as i128) < (ICON_REQUEST_TIMEOUT_MS as i128) };
    retain_vec(&mut state.pending_icons, keep, Ghost(still_pending(now)));
    let ghost pending = state.pending_icons@;
    let ghost pred = |p: String| should_request_spec(p@, installed@, cached@, app_device@, source_device_uuid@, now, pending);
    let mut need: Vec<String> = Vec::new();
    let mut i: usize = 0;
    assert(packages@.take(0).filter(pred) =~= Seq::<String>::empty()) by {
        reveal(Seq::filter);
    }
    while i < packages.len()
        invariant
            i <= packages.len(),
            state.pending_icons@ == pending,
            pred == (|p: String| should_request_spec(p@, installed@, cached@, app_device@, source_device_uuid@, now, pending)),
            need@ == packages@.take(i as int).filter(pred),
        decreases packages.len() - i,
    {
        proof {
            assert(packages@.take(i + 1) =~= packages@.take(i as int).push(packages@[i as int]));
            packages@.take(i as int).lemma_filter_push(packages@[i as int], pred);
        }
        if should_request_icon(packages[i].as_str(), installed, cached, app_device, source_device_uuid, now, &state.pending_icons) {
            need.push(packages[i].clone());
        }
        i = i + 1;
    }
    assert(packages@.take(i as int) =~= packages@);
    let ghost names = need@.map_values(|p: String| p@);
    if need.len() == 0 {
        assert(names.len() == 0);
        return owned("{}");
    }
    let mut k: usize = 0;
    assert(need@.take(0) =~= Seq::<String>::empty());
    while k < need.len()
        invariant
            k <= need.len(),
            state.pending_icons@ == insert_all(pending, need@.take(k as int), now),
        decreases need.len() - k,
    {
        let ghost before = state.pending_icons@;
        insert_key(&mut state.pending_icons, need[k].clone(), now);
        k = k + 1;
        assert(need@.take(k as int).drop_last() =~= need@.take(k - 1));
    }
    assert(need@.take(k as int) =~= need@);
    let mut out = String::new();
    push_char(&mut out, '{');
    if need.len() == 1 {
        push_json_str_field(&mut out, "packageName", need[0].as_str());
    } else {
        push_json_key(&mut out, "packageNames");
        let mut refs: Vec<&str> = Vec::new();
        let mut j: usize = 0;
        while j < need.len()
            invariant
                j <= need.len(),
                refs@.map_values(|s: &str| s@) == need@.take(j as int).map_values(|p: String| p@),
            decreases need.len() - j,
        {
            let ghost prev = refs@;
            let r = need[j].as_str();
            refs.push(r);
            assert(refs@ == prev.push(r));
            assert(refs@.map_values(|s: &str| s@) =~= prev.map_values(|s: &str| s@).push(need@[j as int]@));
            j = j + 1;
            assert(need@.take(j as int) =~= need@.take(j - 1).push(need@[j - 1]));
            assert(refs@.map_values(|s: &str| s@) =~= need@.take(j as int).map_values(|p: String| p@));
        }
        assert(need@.take(j as int) =~= need@);
        push_json_str_array(&mut out, refs.as_slice());
    }
    push_char(&mut out, ',');
    push_json_int_field(&mut out, "time", now);
    push_char(&mut out, ',');
    push_json_str_field(&mut out, "type", "ICON_REQUEST");
    push_char(&mut out, '}');
    assert(out@ =~= icon_request_json(names, now));
    out
}

/// Clears the pending requests of `packages` (answered, or associated).
pub fn clear_icon_pending(state: &mut AppSyncState, packages: &[String])
    ensures
        final(state).pending_icons@ == remove_all(old(state).pending_icons@, packages@),
{
    let ghost start = state.pending_icons@;
    let mut i: usize = 0;
    assert(packages@.take(0) =~= Seq::<String>::empty());
    while i < packages.len()
        invariant
            i <= packages.len(),
            state.pending_icons@ == remove_all(start, packages@.take(i as int)),
        decreases packages.len() - i,
    {
        remove_key(&mut state.pending_icons, packages[i].as_str());
        i = i + 1;
        assert(packages@.take(i as int).drop_last() =~= packages@.take(i - 1));
    }
    assert(packages@.take(i as int) =~= packages@);
}

/// Law: an icon requested at `now` is not requested again before the time-out passes.
pub proof fn law_requested_icon_not_repeated(
    pending: Seq<(String, i64)>,
    pkg: String,
    installed: Seq<String>,
    cached: Seq<String>,
    app_device: Seq<(String, Vec<String>)>,
    source: Seq<char>,
    now: i64,
    later: i64,
)
    requires
        later - now < ICON_REQUEST_TIMEOUT_MS,
    ensures
        !should_request_spec(pkg@, installed, cached, app_device, source, later, without_key(pending, pkg@).push((pkg, now))),
{
    assert(without_key(pending, pkg@).push((pkg, now)).drop_last() =~= without_key(pending, pkg@));
}

/// Law: an installed or cached package is never requested.
pub proof fn law_local_icon_never_requested(
    pkg: Seq<char>,
    installed: Seq<String>,
    cached: Seq<String>,
    app_device: Seq<(String, Vec<String>)>,
    source: Seq<char>,
    now: i64,
    pending: Seq<(String, i64)>,
)
    requires
        names_have(installed, pkg) || names_have(cached, pkg),
    ensures
        !should_request_spec(pkg, installed, cached, app_device, source, now, pending),
{
}

// ===================== app lists and icon answers =====================

/// The integer text of `v`.
fn int_text(v: i64) -> (r: String)
    ensures
        r@ == dec_int(v as int),
{
    let mut s = String::new();
    push_int(&mut s, v);
    assert(s@ =~= dec_int(v as int));
    s
}

/// The decimal text of a count.
fn count_text(n: usize) -> (r: String)
    ensures
        r@ == dec_int(n as int),
{
    let mut s = String::new();
    push_dec(&mut s, n as u64);
    assert(s@ =~= dec_int(n as int));
    s
}

/// The app-list request: `{"scope":..,"time":..,"type":"APP_LIST_REQUEST"}`.
pub open spec fn applist_request_json(scope: Seq<char>, now: i64) -> Seq<char> {
    object_text(seq![
        ("scope"@, LeafView::Str(scope)),
        ("time"@, LeafView::Raw(dec_int(now as int))),
        ("type"@, LeafView::Str("APP_LIST_REQUEST"@)),
    ])
}

/// Builds the app-list request for `scope` at time `now`.
pub fn build_applist_request(scope: &str, now: i64) -> (r: String)
    ensures
        r@ == applist_request_json(scope@, now),
{
    let mut ms: Vec<(String, JsonLeaf)> = Vec::new();
    ms.push((owned("scope"), JsonLeaf::Str(owned(scope))));
    ms.push((owned("time"), JsonLeaf::Raw(int_text(now))));
    ms.push((owned("type"), JsonLeaf::Str(owned("APP_LIST_REQUEST"))));
    assert(members_view(ms@) =~= seq![
        ("scope"@, LeafView::Str(scope@)),
        ("time"@, LeafView::Raw(dec_int(now as int))),
        ("type"@, LeafView::Str("APP_LIST_REQUEST"@)),
    ]);
    write_object(&ms)
}

/// The object members of an item, when it is an object.
pub open spec fn item_object(l: LeafView) -> Option<Seq<(Seq<char>, LeafView)>> {
    match l {
        LeafView::Raw(t) => json_object_of(t),
        _ => None,
    }
}

/// The items of member `k` when it is an array (none otherwise).
pub open spec fn array_member(v: Seq<(Seq<char>, LeafView)>, k: Seq<char>) -> Seq<LeafView> {
    match vmember(v, k) {
        Some(LeafView::Raw(t)) => match json_array_of(t) {
            Some(items) => items,
            None => Seq::empty(),
        },
        _ => Seq::empty(),
    }
}

/// The applications of an items list: `(package, name)` for each object item with a
/// non-empty string `packageName`, the name being `appName` when it is a string, else the
/// package.
pub open spec fn app_entries(items: Seq<LeafView>) -> Seq<(Seq<char>, Seq<char>)>
    decreases items.len(),
{
    if items.len() == 0 {
        Seq::empty()
    } else {
        let rest = app_entries(items.drop_last());
        match item_object(items.last()) {
            Some(o) => match vstr(o, "packageName"@) {
                Some(pkg) => if pkg.len() > 0 {
                    rest.push((pkg, match vstr(o, "appName"@) {
                        Some(n) => n,
                        None => pkg,
                    }))
                } else {
                    rest
                },
                None => rest,
            },
            None => rest,
        }
    }
}

/// The JSON of one application: `{"appName":..,"packageName":..}`.
pub open spec fn app_json(e: (Seq<char>, Seq<char>)) -> LeafView {
    LeafView::Raw(object_text(seq![("appName"@, LeafView::Str(e.1)), ("packageName"@, LeafView::Str(e.0))]))
}

/// The integer value of member `k` when it is an integer that fits `i64`.
pub open spec fn int_member(v: Seq<(Seq<char>, LeafView)>, k: Seq<char>) -> Option<int> {
    match vmember(v, k) {
        Some(LeafView::Raw(t)) => crate::text::parse_signed(t, i64::MAX as nat),
        _ => None,
    }
}

/// The normalized app list of a response: its applications, its scope (default `user`) and
/// its total (the number of applications when it gives none or zero).
pub open spec fn applist_json(payload: Seq<char>) -> Seq<char> {
    let v = match json_object_of(payload) {
        Some(v) => v,
        None => Seq::empty(),
    };
    let apps = app_entries(array_member(v, "apps"@));
    let scope = match vstr(v, "scope"@) {
        Some(s) => s,
        None => "user"@,
    };
    let total = match int_member(v, "total"@) {
        Some(t) => if t == 0 { apps.len() as int } else { t },
        None => apps.len() as int,
    };
    object_text(seq![
        ("apps"@, LeafView::Raw(array_text(apps.map_values(|e: (Seq<char>, Seq<char>)| app_json(e))))),
        ("scope"@, LeafView::Str(scope)),
        ("total"@, LeafView::Raw(dec_int(total))),
    ])
}

fn object_of_leaf(l: &JsonLeaf) -> (r: Option<Vec<(String, JsonLeaf)>>)
    ensures
        match r {
            Some(o) => item_object(l@) == Some(members_view(o@)),
            None => item_object(l@) is None,
        },
{
    match l {
        JsonLeaf::Raw(t) => parse_object(t.as_str()),
        _ => None,
    }
}

fn array_of_member(v: &Vec<(String, JsonLeaf)>, k: &str) -> (r: Vec<JsonLeaf>)
    ensures
        items_view(r@) == array_member(members_view(v@), k@),
{
    let empty: Vec<JsonLeaf> = Vec::new();
    assert(items_view(empty@) =~= Seq::<LeafView>::empty());
    match get_member(v, k) {
        Some(JsonLeaf::Raw(t)) => match parse_array(t.as_str()) {
            Some(items) => items,
            None => empty,
        },
        _ => empty,
    }
}

/// Parses an app-list response into `{"apps":[..],"scope":..,"total":..}`.
pub fn parse_applist_response(payload: &str) -> (r: String)
    ensures
        r@ == applist_json(payload@),
{
    let v = match parse_object(payload) {
        Some(v) => v,
        None => Vec::new(),
    };
    assert(members_view(v@) == match json_object_of(payload@) {
        Some(x) => x,
        None => Seq::<(Seq<char>, LeafView)>::empty(),
    });
    let items = array_of_member(&v, "apps");
    let ghost iv = items_view(items@);
    let ghost f = |e: (Seq<char>, Seq<char>)| app_json(e);
    let mut apps: Vec<JsonLeaf> = Vec::new();
    let mut count: usize = 0;
    let mut i: usize = 0;
    assert(iv.take(0) =~= Seq::<LeafView>::empty());
    assert(items_view(apps@) =~= app_entries(iv.take(0)).map_values(f));
    while i < items.len()
        invariant
            i <= items.len(),
            iv == items_view(items@),
            f == (|e: (Seq<char>, Seq<char>)| app_json(e)),
            items_view(apps@) == app_entries(iv.take(i as int)).map_values(f),
            count == app_entries(iv.take(i as int)).len(),
            count <= i,
        decreases items.len() - i,
    {
        let ghost before = apps@;
        let ghost rest = app_entries(iv.take(i as int));
        proof {
            let t = iv.take(i + 1);
            assert(t.drop_last() =~= iv.take(i as int));
            assert(t.last() == items@[i as int]@);
        }
        match object_of_leaf(&items[i]) {
            Some(o) => match get_str(&o, "packageName") {
                Some(pkg) => {
                    if !pkg.as_str().is_empty() {
                        let name = match get_str(&o, "appName") {
                            Some(n) => n,
                            None => owned(pkg.as_str()),
                        };
                        let ghost e = (pkg@, name@);
                        let mut m: Vec<(String, JsonLeaf)> = Vec::new();
                        m.push((owned("appName"), JsonLeaf::Str(name)));
                        m.push((owned("packageName"), JsonLeaf::Str(pkg)));
                        assert(members_view(m@) =~= seq![("appName"@, LeafView::Str(e.1)), ("packageName"@, LeafView::Str(e.0))]);
                        apps.push(JsonLeaf::Raw(write_object(&m)));
                        count = count + 1;
                        assert(rest.push(e).map_values(f) =~= rest.map_values(f).push(f(e)));
                        assert(items_view(apps@) =~= items_view(before).push(f(e)));
                    }
                },
                None => {},
            },
            None => {},
        }
        i = i + 1;
    }
    assert(iv.take(items.len() as int) =~= iv);
    let scope = match get_str(&v, "scope") {
        Some(s) => s,
        None => owned("user"),
    };
    let total_given: Option<i64> = match get_member(&v, "total") {
        Some(JsonLeaf::Raw(t)) => parse_i64_text(t.as_str()),
        _ => None,
    };
    let total_text = match total_given {
        Some(t) => if t == 0 { count_text(count) } else { int_text(t) },
        None => count_text(count),
    };
    let ghost apps_spec = app_entries(iv);
    let ghost scope_v = scope@;
    let ghost total_v: int = match int_member(members_view(v@), "total"@) {
        Some(t) => if t == 0 { apps_spec.len() as int } else { t },
        None => apps_spec.len() as int,
    };
    assert(total_text@ == dec_int(total_v));
    let mut out: Vec<(String, JsonLeaf)> = Vec::new();
    out.push((owned("apps"), JsonLeaf::Raw(write_array(&apps))));
    out.push((owned("scope"), JsonLeaf::Str(scope)));
    out.push((owned("total"), JsonLeaf::Raw(total_text)));
    assert(members_view(out@) =~= seq![
        ("apps"@, LeafView::Raw(array_text(apps_spec.map_values(f)))),
        ("scope"@, LeafView::Str(scope_v)),
        ("total"@, LeafView::Raw(dec_int(total_v))),
    ]);
    write_object(&out)
}

/// The icons of an items list: `(package, data)` for each object item whose `packageName`
/// and `iconData` are strings.
pub open spec fn icon_entries(items: Seq<LeafView>) -> Seq<(Seq<char>, Seq<char>)>
    decreases items.len(),
{
    if items.len() == 0 {
        Seq::empty()
    } else {
        let rest = icon_entries(items.drop_last());
        match item_object(items.last()) {
            Some(o) => match (vstr(o, "packageName"@), vstr(o, "iconData"@)) {
                (Some(p), Some(d)) => rest.push((p, d)),
                _ => rest,
            },
            None => rest,
        }
    }
}

/// The non-empty string items of a list.
pub open spec fn missing_names(items: Seq<LeafView>) -> Seq<Seq<char>>
    decreases items.len(),
{
    if items.len() == 0 {
        Seq::empty()
    } else {
        let rest = missing_names(items.drop_last());
        match items.last() {
            LeafView::Str(s) => if s.len() > 0 { rest.push(s) } else { rest },
            _ => rest,
        }
    }
}

/// The icon of a single answer: its non-empty `packageName` with a non-empty `iconData`.
pub open spec fn single_icon(v: Seq<(Seq<char>, LeafView)>) -> Seq<(Seq<char>, Seq<char>)> {
    match vstr(v, "packageName"@) {
        Some(p) => if p.len() > 0 {
            match vstr(v, "iconData"@) {
                Some(d) => if d.len() > 0 { seq![(p, d)] } else { Seq::empty() },
                None => Seq::empty(),
            }
        } else {
            Seq::empty()
        },
        None => Seq::empty(),
    }
}

/// The package of a single answer without icon data that says `missing: true`.
pub open spec fn single_missing(v: Seq<(Seq<char>, LeafView)>) -> Seq<Seq<char>> {
    match vstr(v, "packageName"@) {
        Some(p) => if p.len() > 0 && vstr(v, "iconData"@) is None && vmember(v, "missing"@) == Some(LeafView::Raw("true"@)) {
            seq![p]
        } else {
            Seq::empty()
        },
        None => Seq::empty(),
    }
}

/// The JSON of one icon: `{"iconData":..,"packageName":..}`.
pub open spec fn icon_json(e: (Seq<char>, Seq<char>)) -> LeafView {
    LeafView::Raw(object_text(seq![("iconData"@, LeafView::Str(e.1)), ("packageName"@, LeafView::Str(e.0))]))
}

/// A name as a string value.
pub open spec fn name_leaf(s: Seq<char>) -> LeafView {
    LeafView::Str(s)
}

/// The normalized icon answer: the icons (batch, then single) and the packages without icon
/// (single, then batch).
pub open spec fn icon_response_json(payload: Seq<char>) -> Seq<char> {
    let v = match json_object_of(payload) {
        Some(v) => v,
        None => Seq::empty(),
    };
    let icons = icon_entries(array_member(v, "icons"@)) + single_icon(v);
    let missing = single_missing(v) + missing_names(array_member(v, "missing"@));
    object_text(seq![
        ("icons"@, LeafView::Raw(array_text(icons.map_values(|e: (Seq<char>, Seq<char>)| icon_json(e))))),
        ("missing"@, LeafView::Raw(array_text(missing.map_values(|s: Seq<char>| name_leaf(s))))),
    ])
}

fn icon_leaf(pkg: String, data: String) -> (r: JsonLeaf)
    ensures
        r@ == icon_json((pkg@, data@)),
{
    let ghost e = (pkg@, data@);
    let mut m: Vec<(String, JsonLeaf)> = Vec::new();
    m.push((owned("iconData"), JsonLeaf::Str(data)));
    m.push((owned("packageName"), JsonLeaf::Str(pkg)));
    assert(members_view(m@) =~= seq![("iconData"@, LeafView::Str(e.1)), ("packageName"@, LeafView::Str(e.0))]);
    JsonLeaf::Raw(write_object(&m))
}

/// Parses an icon answer into `{"icons":[..],"missing":[..]}`.
pub fn parse_icon_response(payload: &str) -> (r: String)
    ensures
        r@ == icon_response_json(payload@),
{
    let v = match parse_object(payload) {
        Some(v) => v,
        None => Vec::new(),
    };
    let ghost vv = members_view(v@);
    assert(vv == match json_object_of(payload@) {
        Some(x) => x,
        None => Seq::<(Seq<char>, LeafView)>::empty(),
    });
    let ghost f = |e: (Seq<char>, Seq<char>)| icon_json(e);
    let ghost g = |s: Seq<char>| name_leaf(s);
    // batch icons
    let items = array_of_member(&v, "icons");
    let ghost iv = items_view(items@);
    let mut icons: Vec<JsonLeaf> = Vec::new();
    let mut i: usize = 0;
    assert(iv.take(0) =~= Seq::<LeafView>::empty());
    assert(items_view(icons@) =~= icon_entries(iv.take(0)).map_values(f));
    while i < items.len()
        invariant
            i <= items.len(),
            iv == items_view(items@),
            f == (|e: (Seq<char>, Seq<char>)| icon_json(e)),
            items_view(icons@) == icon_entries(iv.take(i as int)).map_values(f),
        decreases items.len() - i,
    {
        let ghost before = icons@;
        let ghost rest = icon_entries(iv.take(i as int));
        proof {
            let t = iv.take(i + 1);
            assert(t.drop_last() =~= iv.take(i as int));
            assert(t.last() == items@[i as int]@);
        }
        match object_of_leaf(&items[i]) {
            Some(o) => match (get_str(&o, "packageName"), get_str(&o, "iconData")) {
                (Some(p), Some(d)) => {
                    let ghost e = (p@, d@);
                    icons.push(icon_leaf(p, d));
                    assert(rest.push(e).map_values(f) =~= rest.map_values(f).push(f(e)));
                    assert(items_view(icons@) =~= items_view(before).push(f(e)));
                },
                _ => {},
            },
            None => {},
        }
        i = i + 1;
    }
    assert(iv.take(items.len() as int) =~= iv);
    // single answer
    let mut missing: Vec<JsonLeaf> = Vec::new();
    let pkg = get_str(&v, "packageName");
    let data = get_str(&v, "iconData");
    let missing_flag = match get_member(&v, "missing") {
        Some(JsonLeaf::Raw(t)) => str_eq(t.as_str(), "true"),
        _ => false,
    };
    let ghost icons_before = icons@;
    let ghost single = single_icon(vv);
    match pkg {
        Some(p) => {
            if !p.as_str().is_empty() {
                match data {
                    Some(d) => {
                        if !d.as_str().is_empty() {
                            let ghost e = (p@, d@);
                            icons.push(icon_leaf(p, d));
                            assert(single == seq![e]);
                            assert(items_view(icons@) =~= items_view(icons_before) + single.map_values(f));
                        } else {
                            assert(single =~= Seq::<(Seq<char>, Seq<char>)>::empty());
                            assert(items_view(icons@) =~= items_view(icons_before) + single.map_values(f));
                        }
                    },
                    None => {
                        assert(single =~= Seq::<(Seq<char>, Seq<char>)>::empty());
                        assert(items_view(icons@) =~= items_view(icons_before) + single.map_values(f));
                        if missing_flag {
                            missing.push(JsonLeaf::Str(p));
                        }
                    },
                }
            } else {
                assert(single =~= Seq::<(Seq<char>, Seq<char>)>::empty());
                assert(items_view(icons@) =~= items_view(icons_before) + single.map_values(f));
            }
        },
        None => {
            assert(single =~= Seq::<(Seq<char>, Seq<char>)>::empty());
            assert(items_view(icons@) =~= items_view(icons_before) + single.map_values(f));
        },
    }
    let ghost all_icons = icon_entries(iv) + single_icon(vv);
    assert(all_icons.map_values(f) =~= icon_entries(iv).map_values(f) + single.map_values(f));
    assert(items_view(icons@) =~= all_icons.map_values(f));
    assert(items_view(missing@) =~= single_missing(vv).map_values(g));
    // batch missing
    let names = array_of_member(&v, "missing");
    let ghost nv = items_view(names@);
    let ghost sm = single_missing(vv);
    let mut j: usize = 0;
    assert(nv.take(0) =~= Seq::<LeafView>::empty());
    assert(sm + missing_names(nv.take(0)) =~= sm);
    while j < names.len()
        invariant
            j <= names.len(),
            nv == items_view(names@),
            g == (|s: Seq<char>| name_leaf(s)),
            items_view(missing@) == (sm + missing_names(nv.take(j as int))).map_values(g),
        decreases names.len() - j,
    {
        let ghost before = missing@;
        let ghost rest = sm + missing_names(nv.take(j as int));
        proof {
            let t = nv.take(j + 1);
            assert(t.drop_last() =~= nv.take(j as int));
            assert(t.last() == names@[j as int]@);
        }
        match &names[j] {
            JsonLeaf::Str(s) => {
                if !s.as_str().is_empty() {
                    let ghost n = s@;
                    missing.push(JsonLeaf::Str(owned(s.as_str())));
                    assert(sm + missing_names(nv.take(j + 1)) =~= rest.push(n));
                    assert(rest.push(n).map_values(g) =~= rest.map_values(g).push(g(n)));
                    assert(items_view(missing@) =~= items_view(before).push(g(n)));
                } else {
                    assert(sm + missing_names(nv.take(j + 1)) =~= rest);
                }
            },
            _ => {
                assert(sm + missing_names(nv.take(j + 1)) =~= rest);
            },
        }
        j = j + 1;
    }
    assert(nv.take(names.len() as int) =~= nv);
    let mut out: Vec<(String, JsonLeaf)> = Vec::new();
    out.push((owned("icons"), JsonLeaf::Raw(write_array(&icons))));
    out.push((owned("missing"), JsonLeaf::Raw(write_array(&missing))));
    assert(members_view(out@) =~= seq![
        ("icons"@, LeafView::Raw(array_text(all_icons.map_values(f)))),
        ("missing"@, LeafView::Raw(array_text((sm + missing_names(nv)).map_values(g)))),
    ]);
    write_object(&out)
}

} // verus!
