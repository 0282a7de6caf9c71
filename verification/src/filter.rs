//! Notification filter configured by the peer: package-group mapping and white/black lists
//! with optional keywords.
use vstd::prelude::*;
use vstd::string::*;
use crate::text::{contains_seq, str_contains, str_eq, owned, chars_of, string_of, split_once_seq, parse_unsigned};
use crate::json_model::{JsonLeaf, LeafView, get_member, get_str, items_view, json_array_of, json_object_of, members_view, parse_array, parse_object, vmember, vstr};
use crate::app_sync::{array_member, item_object};
use crate::diff::{is_json, json_valid};

verus! {

/// A named group of packages that map to one local package name.
#[derive(Clone, Debug)]
pub struct PackageGroup {
    pub group_name: String,
    pub packages: Vec<String>,
}

/// One entry of the filter list: a package and an optional keyword.
#[derive(Clone, Debug)]
pub struct FilterListEntry {
    pub package: String,
    pub keyword: Option<String>,
}

/// Filter configuration received from the peer.
#[derive(Clone, Debug)]
pub struct RemoteFilterConfig {
    pub enable_package_group_mapping: bool,
    pub package_groups: Vec<PackageGroup>,
    /// Whether each group is enabled, by group name (the first entry of a name counts).
    pub group_enabled: Vec<(String, bool)>,
    /// 0 = no filtering, 1 = white list, 2 = black list.
    pub filter_mode: u32,
    pub filter_list: Vec<FilterListEntry>,
    pub enable_peer_mode: bool,
    pub installed_packages: Vec<String>,
}

/// Whether group `name` is marked enabled: the first entry with that name decides.
pub open spec fn group_enabled_spec(enabled: Seq<(String, bool)>, name: Seq<char>) -> bool
    decreases enabled.len(),
{
    if enabled.len() == 0 {
        false
    } else if enabled[0].0@ == name {
        enabled[0].1
    } else {
        group_enabled_spec(enabled.drop_first(), name)
    }
}

/// Whether a list of package names holds `pkg`.
pub open spec fn names_contain(names: Seq<String>, pkg: Seq<char>) -> bool {
    exists|i: int| 0 <= i < names.len() && (#[trigger] names[i])@ == pkg
}

/// The name of the first enabled group that holds `pkg`, if any.
pub open spec fn mapped_group(groups: Seq<PackageGroup>, enabled: Seq<(String, bool)>, pkg: Seq<char>) -> Option<Seq<char>>
    decreases groups.len(),
{
    if groups.len() == 0 {
        None
    } else if names_contain(groups[0].packages@, pkg) && group_enabled_spec(enabled, groups[0].group_name@) {
        Some(groups[0].group_name@)
    } else {
        mapped_group(groups.drop_first(), enabled, pkg)
    }
}

/// Whether a filter entry matches a notification.
pub open spec fn entry_matches(e: FilterListEntry, pkg: Seq<char>, title: Seq<char>, text: Seq<char>) -> bool {
    e.package@ == pkg && match e.keyword {
        None => true,
        Some(kw) => contains_seq(title, kw@) || contains_seq(text, kw@),
    }
}

/// Whether any filter entry matches a notification.
pub open spec fn list_matches(list: Seq<FilterListEntry>, pkg: Seq<char>, title: Seq<char>, text: Seq<char>) -> bool {
    exists|i: int| 0 <= i < list.len() && entry_matches(#[trigger] list[i], pkg, title, text)
}

/// Whether a notification passes under a filter mode.
pub open spec fn passes_spec(mode: u32, list: Seq<FilterListEntry>, pkg: Seq<char>, title: Seq<char>, text: Seq<char>) -> bool {
    if mode == 1 {
        list_matches(list, pkg, title, text)
    } else if mode == 2 {
        !list_matches(list, pkg, title, text)
    } else {
        true
    }
}

fn names_contain_exec(names: &Vec<String>, pkg: &str) -> (r: bool)
    ensures
        r == names_contain(names@, pkg@),
{
    let mut i: usize = 0;
    while i < names.len()
        invariant
            i <= names.len(),
            forall|j: int| 0 <= j < i ==> (#[trigger] names@[j])@ != pkg@,
        decreases names.len() - i,
    {
        if str_eq(names[i].as_str(), pkg) {
            return true;
        }
        i = i + 1;
    }
    false
}

fn group_enabled_exec(enabled: &Vec<(String, bool)>, name: &str) -> (r: bool)
    ensures
        r == group_enabled_spec(enabled@, name@),
{
    let mut i: usize = 0;
    assert(enabled@.skip(0) == enabled@);
    while i < enabled.len()
        invariant
            i <= enabled.len(),
            group_enabled_spec(enabled@, name@) == group_enabled_spec(enabled@.skip(i as int), name@),
        decreases enabled.len() - i,
    {
        assert(enabled@.skip(i as int).drop_first() == enabled@.skip(i + 1));
        assert(enabled@.skip(i as int)[0] == enabled@[i as int]);
        if str_eq(enabled[i].0.as_str(), name) {
            return enabled[i].1;
        }
        i = i + 1;
    }
    false
}

impl RemoteFilterConfig {
    /// Empty configuration: no mapping, no groups, mode 0, empty lists.
    pub fn new() -> (r: RemoteFilterConfig)
        ensures
            !r.enable_package_group_mapping,
            r.package_groups@.len() == 0,
            r.group_enabled@.len() == 0,
            r.filter_mode == 0,
            r.filter_list@.len() == 0,
            !r.enable_peer_mode,
            r.installed_packages@.len() == 0,
    {
        RemoteFilterConfig {
            enable_package_group_mapping: false,
            package_groups: Vec::new(),
            group_enabled: Vec::new(),
            filter_mode: 0,
            filter_list: Vec::new(),
            enable_peer_mode: false,
            installed_packages: Vec::new(),
        }
    }

    /// Maps a remote package name to the local name: the first enabled group holding it,
    /// else the name itself (always the name itself when mapping is off).
    pub fn map_to_local_package(&self, remote_pkg: &str) -> (r: String)
        ensures
            r@ == (if !self.enable_package_group_mapping {
                remote_pkg@
            } else {
                match mapped_group(self.package_groups@, self.group_enabled@, remote_pkg@) {
                    Some(g) => g,
                    None => remote_pkg@,
                }
            }),
    {
        if !self.enable_package_group_mapping {
            return owned(remote_pkg);
        }
        let mut i: usize = 0;
        assert(self.package_groups@.skip(0) == self.package_groups@);
        while i < self.package_groups.len()
            invariant
                i <= self.package_groups.len(),
                self.enable_package_group_mapping,
                mapped_group(self.package_groups@, self.group_enabled@, remote_pkg@)
                    == mapped_group(self.package_groups@.skip(i as int), self.group_enabled@, remote_pkg@),
            decreases self.package_groups.len() - i,
        {
            let group = &self.package_groups[i];
            assert(self.package_groups@.skip(i as int).drop_first() == self.package_groups@.skip(i + 1));
            assert(self.package_groups@.skip(i as int)[0] == self.package_groups@[i as int]);
            if names_contain_exec(&group.packages, remote_pkg) {
                if group_enabled_exec(&self.group_enabled, group.group_name.as_str()) {
                    let ghost rest = self.package_groups@.skip(i as int);
                    assert(rest.len() > 0);
                    assert(rest[0] == *group);
                    assert(mapped_group(rest, self.group_enabled@, remote_pkg@) == Some(group.group_name@));
                    assert(mapped_group(self.package_groups@, self.group_enabled@, remote_pkg@) == Some(group.group_name@));
                    let out = owned(group.group_name.as_str());
                    assert(out@ == group.group_name@);
                    return out;
                }
            }
            i = i + 1;
        }
        owned(remote_pkg)
    }

    /// Whether some filter entry matches the package (and, when it has a keyword, the title or
    /// text contains the keyword).
    pub fn matches_filter_entry(&self, pkg: &str, title: &str, text: &str) -> (r: bool)
        ensures
            r == list_matches(self.filter_list@, pkg@, title@, text@),
    {
        let mut i: usize = 0;
        while i < self.filter_list.len()
            invariant
                i <= self.filter_list.len(),
                forall|j: int| 0 <= j < i ==> !entry_matches(#[trigger] self.filter_list@[j], pkg@, title@, text@),
            decreases self.filter_list.len() - i,
        {
            let entry = &self.filter_list[i];
            if str_eq(entry.package.as_str(), pkg) {
                let hit = match &entry.keyword {
                    None => true,
                    Some(kw) => str_contains(title, kw.as_str()) || str_contains(text, kw.as_str()),
                };
                if hit {
                    assert(entry_matches(self.filter_list@[i as int], pkg@, title@, text@));
                    return true;
                }
            }
            i = i + 1;
        }
        false
    }

    /// Whether a notification passes: mode 0 passes all, 1 only listed ones, 2 all but listed
    /// ones; any other mode passes all.
    pub fn check_filter_mode(&self, package_name: &str, title: &str, text: &str) -> (r: bool)
        ensures
            r == passes_spec(self.filter_mode, self.filter_list@, package_name@, title@, text@),
    {
        if self.filter_mode == 0 {
            true
        } else if self.filter_mode == 1 {
            self.matches_filter_entry(package_name, title, text)
        } else if self.filter_mode == 2 {
            !self.matches_filter_entry(package_name, title, text)
        } else {
            true
        }
    }

    /// Whether the filter list names the package (keywords ignored).
    pub fn is_in_filter_list(&self, package_name: &str) -> (r: bool)
        ensures
            r == exists|i: int| 0 <= i < self.filter_list@.len() && (#[trigger] self.filter_list@[i]).package@ == package_name@,
    {
        let mut i: usize = 0;
        while i < self.filter_list.len()
            invariant
                i <= self.filter_list.len(),
                forall|j: int| 0 <= j < i ==> (#[trigger] self.filter_list@[j]).package@ != package_name@,
            decreases self.filter_list.len() - i,
        {
            if str_eq(self.filter_list[i].package.as_str(), package_name) {
                return true;
            }
            i = i + 1;
        }
        false
    }
}

impl Default for RemoteFilterConfig {
    fn default() -> (r: RemoteFilterConfig)
        ensures
            !r.enable_package_group_mapping,
            r.package_groups@.len() == 0,
            r.filter_mode == 0,
            r.filter_list@.len() == 0,
    {
        RemoteFilterConfig::new()
    }
}

/// The filter configuration held by the core.
pub struct FilterState {
    pub config: RemoteFilterConfig,
}

impl FilterState {
    /// An empty configuration (no mapping, mode 0).
    pub fn new() -> (r: FilterState)
        ensures
            !r.config.enable_package_group_mapping,
            r.config.filter_mode == 0,
            r.config.package_groups@.len() == 0,
            r.config.group_enabled@.len() == 0,
            r.config.filter_list@.len() == 0,
            !r.config.enable_peer_mode,
            r.config.installed_packages@.len() == 0,
    {
        FilterState { config: RemoteFilterConfig::new() }
    }
}

/// Law: white-list and black-list modes decide oppositely on every notification.
pub proof fn law_white_black_opposite(list: Seq<FilterListEntry>, pkg: Seq<char>, title: Seq<char>, text: Seq<char>)
    ensures
        passes_spec(1, list, pkg, title, text) == !passes_spec(2, list, pkg, title, text),
{
}

/// Law: a listed package without a keyword passes the white list and fails the black list,
/// whatever the title and text.
pub proof fn law_listed_without_keyword(list: Seq<FilterListEntry>, i: int, title: Seq<char>, text: Seq<char>)
    requires
        0 <= i < list.len(),
        list[i].keyword is None,
    ensures
        passes_spec(1, list, list[i].package@, title, text),
        !passes_spec(2, list, list[i].package@, title, text),
{
    assert(entry_matches(list[i], list[i].package@, title, text));
}

// ===================== configuration from JSON =====================

/// A boolean member.
pub open spec fn bool_member(v: Seq<(Seq<char>, LeafView)>, k: Seq<char>) -> Option<bool> {
    match vmember(v, k) {
        Some(LeafView::Raw(t)) => if t == "true"@ {
            Some(true)
        } else if t == "false"@ {
            Some(false)
        } else {
            None
        },
        _ => None,
    }
}

/// The string items of a list, in order.
pub open spec fn string_items(items: Seq<LeafView>) -> Seq<Seq<char>>
    decreases items.len(),
{
    if items.len() == 0 {
        Seq::empty()
    } else {
        let rest = string_items(items.drop_last());
        match items.last() {
            LeafView::Str(s) => rest.push(s),
            _ => rest,
        }
    }
}

/// Whether member `k` is an array.
pub open spec fn has_array(v: Seq<(Seq<char>, LeafView)>, k: Seq<char>) -> bool {
    vmember(v, k) matches Some(LeafView::Raw(t)) && json_array_of(t) is Some
}

/// The groups of a `packageGroups` list: each object item with a string `groupName` and a
/// `packages` array, its packages being the string items.
pub open spec fn group_entries(items: Seq<LeafView>) -> Seq<(Seq<char>, Seq<Seq<char>>)>
    decreases items.len(),
{
    if items.len() == 0 {
        Seq::empty()
    } else {
        let rest = group_entries(items.drop_last());
        match item_object(items.last()) {
            Some(o) => match (vstr(o, "groupName"@), vmember(o, "packages"@)) {
                (Some(n), Some(LeafView::Raw(t))) => match json_array_of(t) {
                    Some(pk) => rest.push((n, string_items(pk))),
                    None => rest,
                },
                _ => rest,
            },
            None => rest,
        }
    }
}

/// The boolean members of an object, in order.
pub open spec fn bool_entries(o: Seq<(Seq<char>, LeafView)>) -> Seq<(Seq<char>, bool)>
    decreases o.len(),
{
    if o.len() == 0 {
        Seq::empty()
    } else {
        let rest = bool_entries(o.drop_last());
        let e = o.last();
        if e.1 == LeafView::Raw("true"@) {
            rest.push((e.0, true))
        } else if e.1 == LeafView::Raw("false"@) {
            rest.push((e.0, false))
        } else {
            rest
        }
    }
}

/// A filter list entry of text `s`: the package before the first `|`, the keyword after it
/// when not empty.
pub open spec fn list_entry(s: Seq<char>) -> (Seq<char>, Option<Seq<char>>) {
    match split_once_seq(s, '|') {
        Some((a, b)) => (a, if b.len() > 0 { Some(b) } else { None }),
        None => (s, None),
    }
}

/// The groups as text.
pub open spec fn groups_view(g: Seq<PackageGroup>) -> Seq<(Seq<char>, Seq<Seq<char>>)> {
    g.map_values(|x: PackageGroup| (x.group_name@, x.packages@.map_values(|p: String| p@)))
}

/// The filter list as text.
pub open spec fn list_view(l: Seq<FilterListEntry>) -> Seq<(Seq<char>, Option<Seq<char>>)> {
    l.map_values(|e: FilterListEntry| (e.package@, match e.keyword { Some(k) => Some(k@), None => None }))
}

/// The enabled marks as text.
pub open spec fn enabled_view(l: Seq<(String, bool)>) -> Seq<(Seq<char>, bool)> {
    l.map_values(|e: (String, bool)| (e.0@, e.1))
}

/// The texts of a list of strings.
pub open spec fn strings_view(l: Seq<String>) -> Seq<Seq<char>> {
    l.map_values(|p: String| p@)
}

/// The configuration after applying the members `v`: each member present (and of the right
/// kind) replaces its setting; the others are kept.
pub open spec fn applied(c: RemoteFilterConfig, d: RemoteFilterConfig, v: Seq<(Seq<char>, LeafView)>) -> bool {
    &&& d.enable_package_group_mapping == match bool_member(v, "enablePackageGroupMapping"@) {
        Some(b) => b,
        None => c.enable_package_group_mapping,
    }
    &&& groups_view(d.package_groups@) == if has_array(v, "packageGroups"@) {
        group_entries(array_member(v, "packageGroups"@))
    } else {
        groups_view(c.package_groups@)
    }
    &&& enabled_view(d.group_enabled@) == match item_object(match vmember(v, "groupEnabled"@) {
        Some(l) => l,
        None => LeafView::Null,
    }) {
        Some(o) => bool_entries(o),
        None => enabled_view(c.group_enabled@),
    }
    &&& d.filter_mode == match vmember(v, "filterMode"@) {
        Some(LeafView::Raw(t)) => match parse_unsigned(t, u64::MAX as nat) {
            Some(n) => (n as u64) as u32,
            None => c.filter_mode,
        },
        _ => c.filter_mode,
    }
    &&& list_view(d.filter_list@) == if has_array(v, "filterList"@) {
        string_items(array_member(v, "filterList"@)).map_values(|s: Seq<char>| list_entry(s))
    } else {
        list_view(c.filter_list@)
    }
    &&& d.enable_peer_mode == match bool_member(v, "enablePeerMode"@) {
        Some(b) => b,
        None => c.enable_peer_mode,
    }
    &&& strings_view(d.installed_packages@) == if has_array(v, "installedPackages"@) {
        string_items(array_member(v, "installedPackages"@))
    } else {
        strings_view(c.installed_packages@)
    }
}

fn get_bool(v: &Vec<(String, JsonLeaf)>, k: &str) -> (r: Option<bool>)
    ensures
        r == bool_member(members_view(v@), k@),
{
    match get_member(v, k) {
        Some(JsonLeaf::Raw(t)) => {
            if str_eq(t.as_str(), "true") {
                Some(true)
            } else if str_eq(t.as_str(), "false") {
                Some(false)
            } else {
                None
            }
        },
        _ => None,
    }
}

fn get_array(v: &Vec<(String, JsonLeaf)>, k: &str) -> (r: Option<Vec<JsonLeaf>>)
    ensures
        r is Some == has_array(members_view(v@), k@),
        r matches Some(items) ==> items_view(items@) == array_member(members_view(v@), k@),
{
    match get_member(v, k) {
        Some(JsonLeaf::Raw(t)) => parse_array(t.as_str()),
        _ => None,
    }
}

fn strings_of(items: &Vec<JsonLeaf>) -> (r: Vec<String>)
    ensures
        strings_view(r@) == string_items(items_view(items@)),
{
    let ghost iv = items_view(items@);
    let mut out: Vec<String> = Vec::new();
    let mut i: usize = 0;
    assert(iv.take(0) =~= Seq::<LeafView>::empty());
    assert(strings_view(out@) =~= Seq::<Seq<char>>::empty());
    while i < items.len()
        invariant
            i <= items.len(),
            iv == items_view(items@),
            strings_view(out@) == string_items(iv.take(i as int)),
        decreases items.len() - i,
    {
        proof {
            assert(iv.take(i + 1).drop_last() =~= iv.take(i as int));
            assert(iv.take(i + 1).last() == items@[i as int]@);
        }
        match &items[i] {
            JsonLeaf::Str(s) => {
                let ghost before = out@;
                out.push(owned(s.as_str()));
                assert(strings_view(out@) =~= strings_view(before).push(s@));
            },
            _ => {},
        }
        i = i + 1;
    }
    assert(iv.take(items.len() as int) =~= iv);
    out
}

fn entry_of(s: &str) -> (r: FilterListEntry)
    ensures
        (r.package@, match r.keyword { Some(k) => Some(k@), None => None }) == list_entry(s@),
{
    let cs = chars_of(s);
    match crate::protocol::inbound::cut_once(cs.as_slice(), '|') {
        Some((a, b)) => FilterListEntry {
            package: string_of(a.as_slice()),
            keyword: if b.len() > 0 { Some(string_of(b.as_slice())) } else { None },
        },
        None => FilterListEntry { package: owned(s), keyword: None },
    }
}

impl RemoteFilterConfig {
    /// Applies a configuration given as JSON (see `applied`). Answers `false` when `json` is
    /// not JSON (nothing changes); JSON that is not an object changes nothing.
    pub fn apply_json(&mut self, json: &str) -> (r: bool)
        ensures
            match json_object_of(json@) {
                None => r == json_valid(json@) && *final(self) == *old(self),
                Some(v) => r && applied(*old(self), *final(self), v),
            },
    {
        let v = match parse_object(json) {
            Some(v) => v,
            None => return is_json(json),
        };
        let ghost vv = members_view(v@);
        let ghost c = *self;
        match get_bool(&v, "enablePackageGroupMapping") {
            Some(b) => self.enable_package_group_mapping = b,
            None => {},
        }
        match get_array(&v, "packageGroups") {
            Some(items) => {
                let ghost iv = items_view(items@);
                let mut groups: Vec<PackageGroup> = Vec::new();
                let mut i: usize = 0;
                assert(iv.take(0) =~= Seq::<LeafView>::empty());
                assert(groups_view(groups@) =~= Seq::<(Seq<char>, Seq<Seq<char>>)>::empty());
                while i < items.len()
                    invariant
                        i <= items.len(),
                        iv == items_view(items@),
                        groups_view(groups@) == group_entries(iv.take(i as int)),
                    decreases items.len() - i,
                {
                    proof {
                        assert(iv.take(i + 1).drop_last() =~= iv.take(i as int));
                        assert(iv.take(i + 1).last() == items@[i as int]@);
                    }
                    let obj = match &items[i] {
                        JsonLeaf::Raw(t) => parse_object(t.as_str()),
                        _ => None,
                    };
                    match obj {
                        Some(o) => match (get_str(&o, "groupName"), get_member(&o, "packages")) {
                            (Some(n), Some(JsonLeaf::Raw(t))) => match parse_array(t.as_str()) {
                                Some(pk) => {
                                    let packages = strings_of(&pk);
                                    let ghost before = groups@;
                                    let g = PackageGroup { group_name: n, packages };
                                    groups.push(g);
                                    assert(groups_view(groups@) =~= groups_view(before).push((g.group_name@, strings_view(g.packages@))));
                                },
                                None => {},
                            },
                            _ => {},
                        },
                        None => {},
                    }
                    i = i + 1;
                }
                assert(iv.take(items.len() as int) =~= iv);
                self.package_groups = groups;
            },
            None => {},
        }
        let enabled_obj = match get_member(&v, "groupEnabled") {
            Some(JsonLeaf::Raw(t)) => parse_object(t.as_str()),
            _ => None,
        };
        match enabled_obj {
            Some(o) => {
                let ghost ov = members_view(o@);
                let mut marks: Vec<(String, bool)> = Vec::new();
                let mut i: usize = 0;
                assert(ov.take(0) =~= Seq::<(Seq<char>, LeafView)>::empty());
                assert(enabled_view(marks@) =~= Seq::<(Seq<char>, bool)>::empty());
                while i < o.len()
                    invariant
                        i <= o.len(),
                        ov == members_view(o@),
                        enabled_view(marks@) == bool_entries(ov.take(i as int)),
                    decreases o.len() - i,
                {
                    proof {
                        assert(ov.take(i + 1).drop_last() =~= ov.take(i as int));
                        assert(ov.take(i + 1).last() == (o@[i as int].0@, o@[i as int].1@));
                    }
                    let b = match &o[i].1 {
                        JsonLeaf::Raw(t) => {
                            if str_eq(t.as_str(), "true") {
                                Some(true)
                            } else if str_eq(t.as_str(), "false") {
                                Some(false)
                            } else {
                                None
                            }
                        },
                        _ => None,
                    };
                    match b {
                        Some(x) => {
                            let ghost before = marks@;
                            marks.push((owned(o[i].0.as_str()), x));
                            assert(enabled_view(marks@) =~= enabled_view(before).push((o@[i as int].0@, x)));
                        },
                        None => {},
                    }
                    i = i + 1;
                }
                assert(ov.take(o.len() as int) =~= ov);
                self.group_enabled = marks;
            },
            None => {},
        }
        match get_member(&v, "filterMode") {
            Some(JsonLeaf::Raw(t)) => match crate::text::parse_u64_text(t.as_str()) {
                Some(n) => self.filter_mode = n as u32,
                None => {},
            },
            _ => {},
        }
        match get_array(&v, "filterList") {
            Some(items) => {
                let texts = strings_of(&items);
                let ghost tv = strings_view(texts@);
                let ghost f = |s: Seq<char>| list_entry(s);
                let mut list: Vec<FilterListEntry> = Vec::new();
                let mut i: usize = 0;
                assert(list_view(list@) =~= tv.take(0).map_values(f));
                while i < texts.len()
                    invariant
                        i <= texts.len(),
                        tv == strings_view(texts@),
                        f == (|s: Seq<char>| list_entry(s)),
                        list_view(list@) == tv.take(i as int).map_values(f),
                    decreases texts.len() - i,
                {
                    let e = entry_of(texts[i].as_str());
                    let ghost before = list@;
                    list.push(e);
                    proof {
                        assert(tv.take(i + 1) =~= tv.take(i as int).push(tv[i as int]));
                        assert(tv.take(i + 1).map_values(f) =~= tv.take(i as int).map_values(f).push(f(tv[i as int])));
                        assert(list_view(list@) =~= list_view(before).push(list_entry(texts@[i as int]@)));
                    }
                    i = i + 1;
                }
                assert(tv.take(texts.len() as int) =~= tv);
                self.filter_list = list;
            },
            None => {},
        }
        match get_bool(&v, "enablePeerMode") {
            Some(b) => self.enable_peer_mode = b,
            None => {},
        }
        match get_array(&v, "installedPackages") {
            Some(items) => {
                self.installed_packages = strings_of(&items);
            },
            None => {},
        }
        true
    }
}

} // verus!
