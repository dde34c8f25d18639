//! The group filter engine: user-defined groups of desktop entries, the
//! membership rules that decide which entries a group shows, and the
//! mutations that move entries in and out of groups.
//!
//! Group indices are positions into the combined list: index 0 is the
//! built-in pseudo-group ("Home"), which has no filter state of its own —
//! with an empty search it shows exactly the entries that no user group
//! claims.  Indices 1 and up address the user groups.  Mutations with an
//! index that addresses no user group are silent no-ops.

use vstd::prelude::*;
use crate::entry::{entry_views, DesktopEntryData, EntryV};
use crate::text::{chars_of, contains_seq, has_substring, lowercase, lower_of};

verus! {

/// Decides which entries belong to a group.
#[derive(Debug)]
pub enum FilterType {
    /// An entry belongs when one of its categories matches one of the
    /// configured categories (case-insensitively) and its id is not in
    /// `exclude`, or when its id is in `included`.
    Categories { categories: Vec<String>, included: Vec<String>, exclude: Vec<String> },
    /// Every entry belongs.  Reserved for the built-in pseudo-group.
    NoFilter,
}

/// A named group of desktop entries.
#[derive(Debug)]
pub struct AppGroup {
    pub name: String,
    pub icon: String,
    pub filter: FilterType,
}

/// The ordered list of user groups.  Loaded once at startup, mutated in
/// place, and handed back to the caller for persistence after every
/// mutation.
#[derive(Debug)]
pub struct AppLibraryConfig {
    pub groups: Vec<AppGroup>,
}

/// Abstract view of a [`FilterType`].
#[verifier::ext_equal]
pub enum FilterV {
    Categories { categories: Seq<Seq<char>>, included: Seq<Seq<char>>, exclude: Seq<Seq<char>> },
    NoFilter,
}

/// Abstract view of an [`AppGroup`].
#[verifier::ext_equal]
pub struct GroupV {
    pub name: Seq<char>,
    pub icon: Seq<char>,
    pub filter: FilterV,
}

pub open spec fn str_views(s: Seq<String>) -> Seq<Seq<char>> {
    s.map_values(|c: String| c@)
}

impl View for FilterType {
    type V = FilterV;

    open spec fn view(&self) -> FilterV {
        match self {
            FilterType::Categories { categories, included, exclude } => FilterV::Categories {
                categories: str_views(categories@),
                included: str_views(included@),
                exclude: str_views(exclude@),
            },
            FilterType::NoFilter => FilterV::NoFilter,
        }
    }
}

impl View for AppGroup {
    type V = GroupV;

    open spec fn view(&self) -> GroupV {
        GroupV { name: self.name@, icon: self.icon@, filter: self.filter@ }
    }
}

/// The views of a sequence of groups.
pub open spec fn group_views(s: Seq<AppGroup>) -> Seq<GroupV> {
    s.map_values(|g: AppGroup| g@)
}

/// The built-in pseudo-group at index 0.
pub open spec fn home_group_v() -> GroupV {
    GroupV {
        name: "cosmic-library-home"@,
        icon: "folder-multiple-symbolic"@,
        filter: FilterV::NoFilter,
    }
}

/// Builds the built-in pseudo-group.
pub fn home_group() -> (g: AppGroup)
    ensures
        g@ == home_group_v(),
{
    AppGroup {
        name: "cosmic-library-home".to_owned(),
        icon: "folder-multiple-symbolic".to_owned(),
        filter: FilterType::NoFilter,
    }
}

/// Some category of `cats` case-folds to the same text as some category
/// of `entry_cats`.
pub open spec fn cat_match(cats: Seq<Seq<char>>, entry_cats: Seq<Seq<char>>) -> bool {
    exists|i: int, j: int|
        0 <= i < cats.len() && 0 <= j < entry_cats.len() && lower_of(cats[i]) == lower_of(
            entry_cats[j],
        )
}

/// Whether an entry belongs to a group, before any search narrowing.
pub open spec fn group_matches(g: GroupV, e: EntryV) -> bool {
    match g.filter {
        FilterV::Categories { categories, included, exclude } => (cat_match(
            categories,
            e.categories,
        ) && !exclude.contains(e.id)) || included.contains(e.id),
        FilterV::NoFilter => true,
    }
}

/// Whether the case-folded search text `q` occurs in the entry's
/// case-folded name or in one of its case-folded categories.
pub open spec fn search_match(e: EntryV, q: Seq<char>) -> bool {
    has_substring(lower_of(e.name), q) || exists|j: int|
        0 <= j < e.categories.len() && has_substring(lower_of(e.categories[j]), q)
}

fn contains_str(v: &Vec<String>, id: &str) -> (r: bool)
    ensures
        r == str_views(v@).contains(id@),
{
    let mut i: usize = 0;
    let ghost views = str_views(v@);
    while i < v.len()
        invariant
            0 <= i <= v@.len(),
            views == str_views(v@),
            forall|k: int| 0 <= k < i ==> views[k] != id@,
        decreases v@.len() - i,
    {
        proof {
            assert(views[i as int] == v@[i as int]@);
        }
        if string_eq_str(&v[i], id) {
            assert(views.contains(id@));
            return true;
        }
        i = i + 1;
    }
    false
}

/// Compares a `String` and a `&str` for equality of their characters.
pub fn string_eq_str(a: &String, b: &str) -> (r: bool)
    ensures
        r == (a@ == b@),
{
    let av = chars_of(a.as_str());
    let bv = chars_of(b);
    seq_eq_chars(&av, &bv)
}

pub fn seq_eq_chars(a: &Vec<char>, b: &Vec<char>) -> (r: bool)
    ensures
        r == (a@ == b@),
{
    if a.len() != b.len() {
        return false;
    }
    let mut i: usize = 0;
    while i < a.len()
        invariant
            a@.len() == b@.len(),
            0 <= i <= a@.len(),
            forall|k: int| 0 <= k < i ==> a@[k] == b@[k],
        decreases a@.len() - i,
    {
        if a[i] != b[i] {
            return false;
        }
        i = i + 1;
    }
    proof {
        assert(a@ =~= b@);
    }
    true
}

fn cats_match(cats: &Vec<String>, entry_cats: &Vec<String>) -> (r: bool)
    ensures
        r == cat_match(str_views(cats@), str_views(entry_cats@)),
{
    let ghost cv = str_views(cats@);
    let ghost ev = str_views(entry_cats@);
    let mut i: usize = 0;
    while i < cats.len()
        invariant
            0 <= i <= cats@.len(),
            cv == str_views(cats@),
            ev == str_views(entry_cats@),
            forall|k: int, j: int|
                0 <= k < i && 0 <= j < ev.len() ==> lower_of(cv[k]) != lower_of(ev[j]),
        decreases cats@.len() - i,
    {
        proof {
            assert(cv[i as int] == cats@[i as int]@);
        }
        let fc = lowercase(cats[i].as_str());
        let mut j: usize = 0;
        while j < entry_cats.len()
            invariant
                0 <= i < cats@.len(),
                0 <= j <= entry_cats@.len(),
                cv == str_views(cats@),
                ev == str_views(entry_cats@),
                fc@ == lower_of(cv[i as int]),
                forall|m: int| 0 <= m < j ==> lower_of(cv[i as int]) != lower_of(ev[m]),
            decreases entry_cats@.len() - j,
        {
            proof {
                assert(ev[j as int] == entry_cats@[j as int]@);
            }
            let fe = lowercase(entry_cats[j].as_str());
            if string_eq_str(&fe, fc.as_str()) {
                assert(lower_of(cv[i as int]) == lower_of(ev[j as int]));
                return true;
            }
            j = j + 1;
        }
        i = i + 1;
    }
    false
}

impl AppGroup {
    /// Whether `entry` belongs to this group, before any search
    /// narrowing.
    pub fn matches_entry(&self, entry: &DesktopEntryData) -> (r: bool)
        ensures
            r == group_matches(self@, entry@),
    {
        match &self.filter {
            FilterType::Categories { categories, included, exclude } => {
                let by_category = cats_match(categories, &entry.categories)
                    && !contains_str(exclude, entry.id.as_str());
                by_category || contains_str(included, entry.id.as_str())
            },
            FilterType::NoFilter => true,
        }
    }
}

/// Whether the already-folded search text `q` occurs in the entry's
/// folded name or one of its folded categories.
fn matches_search(entry: &DesktopEntryData, q: &Vec<char>) -> (r: bool)
    ensures
        r == search_match(entry@, q@),
{
    let folded_name = chars_of(lowercase(entry.name.as_str()).as_str());
    if contains_seq(&folded_name, q) {
        return true;
    }
    let ghost ev = entry@.categories;
    let mut j: usize = 0;
    while j < entry.categories.len()
        invariant
            0 <= j <= entry.categories@.len(),
            ev == entry@.categories,
            !has_substring(lower_of(entry@.name), q@),
            forall|m: int| 0 <= m < j ==> !has_substring(lower_of(ev[m]), q@),
        decreases entry.categories@.len() - j,
    {
        proof {
            assert(ev[j as int] == entry.categories@[j as int]@);
        }
        let fc = chars_of(lowercase(entry.categories[j].as_str()).as_str());
        if contains_seq(&fc, q) {
            assert(has_substring(lower_of(ev[j as int]), q@));
            return true;
        }
        j = j + 1;
    }
    false
}

/// Whether `e` is kept by group `g` for the case-folded search text `q`.
/// An empty search keeps the entries of `g` that no exception group
/// claims; a non-empty search keeps the entries of `g` whose name or
/// category contains it.
pub open spec fn group_keep(g: GroupV, exceptions: Seq<GroupV>, q: Seq<char>, e: EntryV) -> bool {
    group_matches(g, e) && if q.len() == 0 {
        !exists|k: int| 0 <= k < exceptions.len() && group_matches(exceptions[k], e)
    } else {
        search_match(e, q)
    }
}

/// The entries kept by `g`, in input order.
pub open spec fn filtered_seq(
    g: GroupV,
    exceptions: Seq<GroupV>,
    q: Seq<char>,
    entries: Seq<EntryV>,
) -> Seq<EntryV>
    decreases entries.len(),
{
    if entries.len() == 0 {
        Seq::<EntryV>::empty()
    } else {
        filtered_seq(g, exceptions, q, entries.drop_last()) + if group_keep(
            g,
            exceptions,
            q,
            entries.last(),
        ) {
            seq![entries.last()]
        } else {
            Seq::<EntryV>::empty()
        }
    }
}

fn any_group_matches(groups: &Vec<AppGroup>, entry: &DesktopEntryData) -> (r: bool)
    ensures
        r == exists|k: int|
            0 <= k < groups@.len() && group_matches(group_views(groups@)[k], entry@),
{
    let ghost views = group_views(groups@);
    let mut i: usize = 0;
    while i < groups.len()
        invariant
            0 <= i <= groups@.len(),
            views == group_views(groups@),
            forall|k: int| 0 <= k < i ==> !group_matches(views[k], entry@),
        decreases groups@.len() - i,
    {
        proof {
            assert(views[i as int] == groups@[i as int]@);
        }
        if groups[i].matches_entry(entry) {
            assert(group_matches(views[i as int], entry@));
            return true;
        }
        i = i + 1;
    }
    false
}

impl AppGroup {
    /// The entries this group shows for the search text `input_value`,
    /// in the order they appear in `all_entries`.  With an empty search,
    /// entries claimed by an exception group are left out.
    #[verifier::loop_isolation(false)]
    pub fn filtered(
        &self,
        input_value: &str,
        exceptions: &Vec<AppGroup>,
        all_entries: &Vec<DesktopEntryData>,
    ) -> (r: Vec<DesktopEntryData>)
        ensures
            entry_views(r@) == filtered_seq(
                self@,
                group_views(exceptions@),
                lower_of(input_value@),
                entry_views(all_entries@),
            ),
    {
        let ghost views = entry_views(all_entries@);
        let ghost excv = group_views(exceptions@);
        let ghost q = lower_of(input_value@);
        let folded = chars_of(lowercase(input_value).as_str());
        let mut out: Vec<DesktopEntryData> = Vec::new();
        proof {
            assert(views.take(0) =~= Seq::<EntryV>::empty());
            assert(entry_views(out@) =~= Seq::<EntryV>::empty());
        }
        let mut i: usize = 0;
        while i < all_entries.len()
            invariant
                0 <= i <= views.len(),
                entry_views(out@) == filtered_seq(self@, excv, q, views.take(i as int)),
            decreases views.len() - i,
        {
            proof {
                assert(views[i as int] == all_entries@[i as int]@);
                assert(views.take(i + 1).drop_last() =~= views.take(i as int));
                assert(views.take(i + 1).last() == views[i as int]);
            }
            let entry = &all_entries[i];
            let keep = self.matches_entry(entry) && if folded.len() == 0 {
                !any_group_matches(exceptions, entry)
            } else {
                matches_search(entry, &folded)
            };
            if keep {
                let ghost pre = entry_views(out@);
                out.push(entry.duplicate());
                proof {
                    assert(entry_views(out@) =~= pre + seq![views[i as int]]);
                }
            } else {
                proof {
                    assert(entry_views(out@) =~= entry_views(out@) + Seq::<EntryV>::empty());
                }
            }
            i = i + 1;
        }
        proof {
            assert(views.take(views.len() as int) =~= views);
        }
        out
    }
}

/// The entries that the group at combined index `i` shows: index 0 and
/// out-of-range indices address the pseudo-group, whose exception list
/// is every user group; indices 1 through the number of user groups
/// address that user group, with no exceptions.
pub open spec fn config_filtered(
    groups: Seq<GroupV>,
    i: int,
    q: Seq<char>,
    entries: Seq<EntryV>,
) -> Seq<EntryV> {
    if 1 <= i <= groups.len() {
        filtered_seq(groups[i - 1], Seq::<GroupV>::empty(), q, entries)
    } else {
        filtered_seq(home_group_v(), groups, q, entries)
    }
}

impl AppLibraryConfig {
    /// An empty configuration: no user groups.
    pub fn new() -> (r: Self)
        ensures
            r.groups@.len() == 0,
    {
        AppLibraryConfig { groups: Vec::new() }
    }

    /// The entries shown at combined group index `i` for the search text
    /// `input_value`, ordered case-insensitively by display name.
    pub fn filtered(
        &self,
        i: usize,
        input_value: &str,
        entries: &Vec<DesktopEntryData>,
    ) -> (r: Vec<DesktopEntryData>)
        ensures
            entry_views(r@) == crate::entry::sorted_entries(
                config_filtered(
                    group_views(self.groups@),
                    i as int,
                    lower_of(input_value@),
                    entry_views(entries@),
                ),
            ),
    {
        let unsorted = if 1 <= i && i <= self.groups.len() {
            let no_exceptions: Vec<AppGroup> = Vec::new();
            proof {
                assert(group_views(no_exceptions@) =~= Seq::<GroupV>::empty());
            }
            self.groups[i - 1].filtered(input_value, &no_exceptions, entries)
        } else {
            let home = home_group();
            home.filtered(input_value, &self.groups, entries)
        };
        crate::entry::sort_entries(unsorted)
    }
}

/// `s` with `id` appended unless already present.
pub open spec fn push_unique(s: Seq<Seq<char>>, id: Seq<char>) -> Seq<Seq<char>> {
    if s.contains(id) {
        s
    } else {
        s.push(id)
    }
}

/// `s` with every occurrence of `id` removed, keeping the order of the
/// rest.
pub open spec fn remove_id(s: Seq<Seq<char>>, id: Seq<char>) -> Seq<Seq<char>>
    decreases s.len(),
{
    if s.len() == 0 {
        Seq::<Seq<char>>::empty()
    } else {
        remove_id(s.drop_last(), id) + if s.last() == id {
            Seq::<Seq<char>>::empty()
        } else {
            seq![s.last()]
        }
    }
}

pub proof fn lemma_push_unique_contains(s: Seq<Seq<char>>, id: Seq<char>, x: Seq<char>)
    ensures
        push_unique(s, id).contains(x) <==> s.contains(x) || x == id,
{
    if !s.contains(id) {
        assert forall|x2: Seq<char>| s.contains(x2) || x2 == id implies s.push(id).contains(
            x2,
        ) by {
            if x2 == id {
                assert(s.push(id)[s.len() as int] == id);
            } else {
                let k = choose|k: int| 0 <= k < s.len() && s[k] == x2;
                assert(s.push(id)[k] == x2);
            }
        }
        assert forall|x2: Seq<char>| s.push(id).contains(x2) implies s.contains(x2) || x2
            == id by {
            let k = choose|k: int| 0 <= k < s.push(id).len() && s.push(id)[k] == x2;
            if k < s.len() {
                assert(s[k] == x2);
            }
        }
    }
}

pub proof fn lemma_remove_id_contains(s: Seq<Seq<char>>, id: Seq<char>, x: Seq<char>)
    ensures
        remove_id(s, id).contains(x) <==> s.contains(x) && x != id,
    decreases s.len(),
{
    if s.len() == 0 {
    } else {
        let t = s.drop_last();
        lemma_remove_id_contains(t, id, x);
        let r = remove_id(s, id);
        let rt = remove_id(t, id);
        if s.last() == id {
            assert(r =~= rt);
            assert(s.contains(x) && x != id ==> t.contains(x)) by {
                if s.contains(x) && x != id {
                    let k = choose|k: int| 0 <= k < s.len() && s[k] == x;
                    assert(t[k] == x);
                }
            }
            assert(t.contains(x) ==> s.contains(x)) by {
                if t.contains(x) {
                    let k = choose|k: int| 0 <= k < t.len() && t[k] == x;
                    assert(s[k] == x);
                }
            }
        } else {
            assert(r == rt + seq![s.last()]);
            if x == s.last() {
                assert(r[r.len() - 1] == x);
                assert(s.contains(x)) by {
                    assert(s[s.len() - 1] == x);
                }
            }
            assert(r.contains(x) ==> s.contains(x) && x != id) by {
                if r.contains(x) {
                    let k = choose|k: int| 0 <= k < r.len() && r[k] == x;
                    if k < rt.len() {
                        assert(rt.contains(x));
                        let m = choose|m: int| 0 <= m < t.len() && t[m] == x;
                        assert(s[m] == x);
                    } else {
                        assert(x == s.last());
                    }
                }
            }
            if s.contains(x) && x != id && x != s.last() {
                let k = choose|k: int| 0 <= k < s.len() && s[k] == x;
                assert(t[k] == x);
                assert(rt.contains(x));
                let m = choose|m: int| 0 <= m < rt.len() && rt[m] == x;
                assert(r[m] == x);
            }
        }
    }
}

/// What `add_entry` does to one user group: drop the id from `exclude`
/// and pin it in `included`.
pub open spec fn group_with_entry(g: GroupV, id: Seq<char>) -> GroupV {
    match g.filter {
        FilterV::Categories { categories, included, exclude } => GroupV {
            filter: FilterV::Categories {
                categories,
                included: push_unique(included, id),
                exclude: remove_id(exclude, id),
            },
            ..g
        },
        FilterV::NoFilter => g,
    }
}

/// What `remove_entry` does to one user group: drop the id from
/// `included` and suppress it in `exclude`.
pub open spec fn group_without_entry(g: GroupV, id: Seq<char>) -> GroupV {
    match g.filter {
        FilterV::Categories { categories, included, exclude } => GroupV {
            filter: FilterV::Categories {
                categories,
                included: remove_id(included, id),
                exclude: push_unique(exclude, id),
            },
            ..g
        },
        FilterV::NoFilter => g,
    }
}

/// What one user group becomes when the id is returned to the
/// pseudo-group: the id is suppressed in its `exclude` list.
pub open spec fn group_excluding(g: GroupV, id: Seq<char>) -> GroupV {
    match g.filter {
        FilterV::Categories { categories, included, exclude } => GroupV {
            filter: FilterV::Categories {
                categories,
                included,
                exclude: push_unique(exclude, id),
            },
            ..g
        },
        FilterV::NoFilter => g,
    }
}

/// The group list after `add_entry(i, id)`.  Index 0 pushes the id into
/// every user group's `exclude` list; an index that addresses a user
/// group pins the id there; any other index changes nothing.
pub open spec fn add_entry_spec(groups: Seq<GroupV>, i: int, id: Seq<char>) -> Seq<GroupV> {
    if i == 0 {
        groups.map_values(|g: GroupV| group_excluding(g, id))
    } else if 1 <= i <= groups.len() {
        groups.update(i - 1, group_with_entry(groups[i - 1], id))
    } else {
        groups
    }
}

/// The group list after `remove_entry(i, id)`.
pub open spec fn remove_entry_spec(groups: Seq<GroupV>, i: int, id: Seq<char>) -> Seq<GroupV> {
    if 1 <= i <= groups.len() {
        groups.update(i - 1, group_without_entry(groups[i - 1], id))
    } else {
        groups
    }
}

fn clone_strings(v: &Vec<String>) -> (r: Vec<String>)
    ensures
        str_views(r@) =~= str_views(v@),
{
    let mut r: Vec<String> = Vec::new();
    let mut i: usize = 0;
    while i < v.len()
        invariant
            0 <= i <= v@.len(),
            r@.len() == i,
            forall|k: int| 0 <= k < i ==> r@[k]@ == v@[k]@,
        decreases v@.len() - i,
    {
        r.push(v[i].clone());
        i = i + 1;
    }
    r
}

impl FilterType {
    /// A copy whose view equals this filter's view.
    pub fn duplicate(&self) -> (r: Self)
        ensures
            r@ == self@,
    {
        match self {
            FilterType::Categories { categories, included, exclude } => {
                let r = FilterType::Categories {
                    categories: clone_strings(categories),
                    included: clone_strings(included),
                    exclude: clone_strings(exclude),
                };
                proof {
                    assert(r@ =~= self@);
                }
                r
            },
            FilterType::NoFilter => FilterType::NoFilter,
        }
    }
}

impl AppGroup {
    /// A copy whose view equals this group's view.
    pub fn duplicate(&self) -> (r: Self)
        ensures
            r@ == self@,
    {
        let r = AppGroup {
            name: self.name.clone(),
            icon: self.icon.clone(),
            filter: self.filter.duplicate(),
        };
        proof {
            assert(r@ =~= self@);
        }
        r
    }

    /// The group's display name.
    pub fn name(&self) -> (r: String)
        ensures
            r@ == self@.name,
    {
        self.name.clone()
    }
}

/// Removes every occurrence of `id` from `v`.
#[verifier::loop_isolation(false)]
fn remove_id_exec(v: &Vec<String>, id: &str) -> (r: Vec<String>)
    ensures
        str_views(r@) == remove_id(str_views(v@), id@),
{
    let ghost views = str_views(v@);
    let mut r: Vec<String> = Vec::new();
    proof {
        assert(views.take(0) =~= Seq::<Seq<char>>::empty());
        assert(str_views(r@) =~= remove_id(views.take(0), id@));
    }
    let mut i: usize = 0;
    while i < v.len()
        invariant
            0 <= i <= views.len(),
            str_views(r@) == remove_id(views.take(i as int), id@),
        decreases views.len() - i,
    {
        proof {
            assert(views[i as int] == v@[i as int]@);
            assert(views.take(i + 1).drop_last() =~= views.take(i as int));
            assert(views.take(i + 1).last() == views[i as int]);
        }
        if !string_eq_str(&v[i], id) {
            let ghost pre = str_views(r@);
            r.push(v[i].clone());
            proof {
                assert(str_views(r@) =~= pre + seq![views[i as int]]);
            }
        } else {
            proof {
                assert(str_views(r@) =~= str_views(r@) + Seq::<Seq<char>>::empty());
            }
        }
        i = i + 1;
    }
    proof {
        assert(views.take(views.len() as int) =~= views);
    }
    r
}

/// Appends `id` to `v` unless an equal string is already there.
fn push_unique_exec(v: &mut Vec<String>, id: &str)
    ensures
        str_views(final(v)@) == push_unique(str_views(old(v)@), id@),
{
    if !contains_str(v, id) {
        let ghost pre = str_views(v@);
        v.push(id.to_owned());
        proof {
            assert(str_views(v@) =~= pre.push(id@));
        }
    }
}

impl AppGroup {
    fn with_entry(&self, id: &str) -> (r: Self)
        ensures
            r@ == group_with_entry(self@, id@),
    {
        match &self.filter {
            FilterType::Categories { categories, included, exclude } => {
                let mut new_included = clone_strings(included);
                push_unique_exec(&mut new_included, id);
                let r = AppGroup {
                    name: self.name.clone(),
                    icon: self.icon.clone(),
                    filter: FilterType::Categories {
                        categories: clone_strings(categories),
                        included: new_included,
                        exclude: remove_id_exec(exclude, id),
                    },
                };
                proof {
                    assert(r@ =~= group_with_entry(self@, id@));
                }
                r
            },
            FilterType::NoFilter => self.duplicate(),
        }
    }

    fn without_entry(&self, id: &str) -> (r: Self)
        ensures
            r@ == group_without_entry(self@, id@),
    {
        match &self.filter {
            FilterType::Categories { categories, included, exclude } => {
                let mut new_exclude = clone_strings(exclude);
                push_unique_exec(&mut new_exclude, id);
                let r = AppGroup {
                    name: self.name.clone(),
                    icon: self.icon.clone(),
                    filter: FilterType::Categories {
                        categories: clone_strings(categories),
                        included: remove_id_exec(included, id),
                        exclude: new_exclude,
                    },
                };
                proof {
                    assert(r@ =~= group_without_entry(self@, id@));
                }
                r
            },
            FilterType::NoFilter => self.duplicate(),
        }
    }

    fn excluding(&self, id: &str) -> (r: Self)
        ensures
            r@ == group_excluding(self@, id@),
    {
        match &self.filter {
            FilterType::Categories { categories, included, exclude } => {
                let mut new_exclude = clone_strings(exclude);
                push_unique_exec(&mut new_exclude, id);
                let r = AppGroup {
                    name: self.name.clone(),
                    icon: self.icon.clone(),
                    filter: FilterType::Categories {
                        categories: clone_strings(categories),
                        included: clone_strings(included),
                        exclude: new_exclude,
                    },
                };
                proof {
                    assert(r@ =~= group_excluding(self@, id@));
                }
                r
            },
            FilterType::NoFilter => self.duplicate(),
        }
    }
}

impl AppLibraryConfig {
    /// The combined group list: the built-in pseudo-group first, then
    /// the user groups.
    pub fn groups(&self) -> (r: Vec<AppGroup>)
        ensures
            r@.len() == 1 + self.groups@.len(),
            r@[0]@ == home_group_v(),
            forall|k: int| 0 <= k < self.groups@.len() ==> r@[k + 1]@ == self.groups@[k]@,
    {
        let mut r: Vec<AppGroup> = Vec::new();
        r.push(home_group());
        let mut i: usize = 0;
        while i < self.groups.len()
            invariant
                0 <= i <= self.groups@.len(),
                r@.len() == 1 + i,
                r@[0]@ == home_group_v(),
                forall|k: int| 0 <= k < i ==> r@[k + 1]@ == self.groups@[k]@,
            decreases self.groups@.len() - i,
        {
            r.push(self.groups[i].duplicate());
            i = i + 1;
        }
        r
    }

    /// Pins `entry_id` at combined index `i`.  Index 0 returns the entry
    /// to the pseudo-group by pushing its id into every user group's
    /// `exclude` list; an index addressing no user group is a no-op.
    #[verifier::loop_isolation(false)]
    pub fn add_entry(&mut self, i: usize, entry_id: &str)
        ensures
            group_views(final(self).groups@) == add_entry_spec(
                group_views(old(self).groups@),
                i as int,
                entry_id@,
            ),
    {
        let ghost views = group_views(self.groups@);
        if i == 0 {
            let mut updated: Vec<AppGroup> = Vec::new();
            let mut k: usize = 0;
            while k < self.groups.len()
                invariant
                    0 <= k <= self.groups@.len(),
                    group_views(self.groups@) == views,
                    updated@.len() == k,
                    forall|m: int|
                        0 <= m < k ==> updated@[m]@ == group_excluding(views[m], entry_id@),
                decreases self.groups@.len() - k,
            {
                proof {
                    assert(views[k as int] == self.groups@[k as int]@);
                }
                updated.push(self.groups[k].excluding(entry_id));
                k = k + 1;
            }
            self.groups = updated;
            proof {
                assert(group_views(self.groups@) =~= views.map_values(
                    |g: GroupV| group_excluding(g, entry_id@),
                ));
            }
        } else if i <= self.groups.len() {
            let replacement = self.groups[i - 1].with_entry(entry_id);
            self.groups.set(i - 1, replacement);
            proof {
                assert(group_views(self.groups@) =~= views.update(
                    i - 1,
                    group_with_entry(views[i - 1], entry_id@),
                ));
            }
        }
    }

    /// Suppresses `entry_id` at combined index `i`: it is dropped from
    /// the group's `included` list and pushed into its `exclude` list.
    /// Index 0 and out-of-range indices are no-ops.
    #[verifier::loop_isolation(false)]
    pub fn remove_entry(&mut self, i: usize, entry_id: &str)
        ensures
            group_views(final(self).groups@) == remove_entry_spec(
                group_views(old(self).groups@),
                i as int,
                entry_id@,
            ),
    {
        let ghost views = group_views(self.groups@);
        if 1 <= i && i <= self.groups.len() {
            let replacement = self.groups[i - 1].without_entry(entry_id);
            self.groups.set(i - 1, replacement);
            proof {
                assert(group_views(self.groups@) =~= views.update(
                    i - 1,
                    group_without_entry(views[i - 1], entry_id@),
                ));
            }
        }
    }

    /// Appends a new empty user group with the given name.
    pub fn add(&mut self, name: String)
        ensures
            final(self).groups@.len() == old(self).groups@.len() + 1,
            group_views(final(self).groups@) =~= group_views(old(self).groups@).push(
                GroupV {
                    name: name@,
                    icon: "folder-symbolic"@,
                    filter: FilterV::Categories {
                        categories: Seq::<Seq<char>>::empty(),
                        included: Seq::<Seq<char>>::empty(),
                        exclude: Seq::<Seq<char>>::empty(),
                    },
                },
            ),
    {
        let ghost views = group_views(self.groups@);
        let group = AppGroup {
            name,
            icon: "folder-symbolic".to_owned(),
            filter: FilterType::Categories {
                categories: Vec::new(),
                included: Vec::new(),
                exclude: Vec::new(),
            },
        };
        proof {
            assert(group@.filter =~= FilterV::Categories {
                categories: Seq::<Seq<char>>::empty(),
                included: Seq::<Seq<char>>::empty(),
                exclude: Seq::<Seq<char>>::empty(),
            });
        }
        self.groups.push(group);
        proof {
            assert(group_views(self.groups@) =~= views.push(group@));
        }
    }

    /// Deletes the user group at combined index `i`.  Index 0 — the
    /// pseudo-group — and out-of-range indices are no-ops.
    pub fn remove(&mut self, i: usize)
        ensures
            group_views(final(self).groups@) == if 1 <= i <= old(self).groups@.len() {
                group_views(old(self).groups@).remove(i - 1)
            } else {
                group_views(old(self).groups@)
            },
    {
        let ghost views = group_views(self.groups@);
        if 1 <= i && i <= self.groups.len() {
            self.groups.remove(i - 1);
            proof {
                assert(group_views(self.groups@) =~= views.remove(i - 1));
            }
        }
    }

    /// Renames the user group at combined index `i`.  Index 0 — the
    /// pseudo-group — and out-of-range indices are no-ops.
    pub fn set_name(&mut self, i: usize, name: String)
        ensures
            group_views(final(self).groups@) == if 1 <= i <= old(self).groups@.len() {
                group_views(old(self).groups@).update(
                    i - 1,
                    GroupV { name: name@, ..group_views(old(self).groups@)[i - 1] },
                )
            } else {
                group_views(old(self).groups@)
            },
    {
        let ghost views = group_views(self.groups@);
        if 1 <= i && i <= self.groups.len() {
            proof {
                assert(views[i - 1] == self.groups@[i - 1]@);
            }
            let renamed = AppGroup {
                name,
                icon: self.groups[i - 1].icon.clone(),
                filter: self.groups[i - 1].filter.duplicate(),
            };
            self.groups.set(i - 1, renamed);
            proof {
                assert(group_views(self.groups@) =~= views.update(
                    i - 1,
                    GroupV { name: renamed.name@, ..views[i - 1] },
                ));
            }
        }
    }
}


/// The `included` list of a filter; empty for the unfiltered variant.
pub open spec fn filter_included(f: FilterV) -> Seq<Seq<char>> {
    match f {
        FilterV::Categories { included, .. } => included,
        FilterV::NoFilter => Seq::<Seq<char>>::empty(),
    }
}

/// The `exclude` list of a filter; empty for the unfiltered variant.
pub open spec fn filter_exclude(f: FilterV) -> Seq<Seq<char>> {
    match f {
        FilterV::Categories { exclude, .. } => exclude,
        FilterV::NoFilter => Seq::<Seq<char>>::empty(),
    }
}

/// Every entry of a filtered list is kept by the group and comes from
/// the input.
pub proof fn lemma_filtered_seq_member(
    g: GroupV,
    exceptions: Seq<GroupV>,
    q: Seq<char>,
    entries: Seq<EntryV>,
    e: EntryV,
)
    requires
        filtered_seq(g, exceptions, q, entries).contains(e),
    ensures
        group_keep(g, exceptions, q, e),
        entries.contains(e),
    decreases entries.len(),
{
    if entries.len() == 0 {
        assert(false);
    } else {
        let t = entries.drop_last();
        let r = filtered_seq(g, exceptions, q, entries);
        let rt = filtered_seq(g, exceptions, q, t);
        let k = choose|k: int| 0 <= k < r.len() && r[k] == e;
        if k < rt.len() {
            assert(rt[k] == e);
            lemma_filtered_seq_member(g, exceptions, q, t, e);
            let m = choose|m: int| 0 <= m < t.len() && t[m] == e;
            assert(entries[m] == e);
        } else {
            assert(group_keep(g, exceptions, q, entries.last()));
            assert(e == entries.last());
            assert(entries[entries.len() - 1] == e);
        }
    }
}

/// With an empty search, the pseudo-group never shows an entry that any
/// user group claims.
pub proof fn lemma_home_excludes_claimed(
    groups: Seq<GroupV>,
    q: Seq<char>,
    entries: Seq<EntryV>,
    e: EntryV,
    k: int,
)
    requires
        q.len() == 0,
        crate::entry::sorted_entries(config_filtered(groups, 0, q, entries)).contains(e),
        0 <= k < groups.len(),
    ensures
        !group_matches(groups[k], e),
{
    let shown = config_filtered(groups, 0, q, entries);
    crate::entry::lemma_sorted_entries_contains(shown, e);
    lemma_filtered_seq_member(home_group_v(), groups, q, entries, e);
}

/// The filtered list is a pure function of the group list, the index,
/// the folded search text and the entry list: two runs over unchanged
/// state coincide.
pub proof fn lemma_filtered_deterministic(
    groups: Seq<GroupV>,
    i: int,
    q: Seq<char>,
    entries: Seq<EntryV>,
    r1: Seq<EntryV>,
    r2: Seq<EntryV>,
)
    requires
        r1 == crate::entry::sorted_entries(config_filtered(groups, i, q, entries)),
        r2 == crate::entry::sorted_entries(config_filtered(groups, i, q, entries)),
    ensures
        r1 == r2,
{
}

/// The filtered list is ordered case-insensitively by display name.
pub proof fn lemma_filtered_ordered(groups: Seq<GroupV>, i: int, q: Seq<char>, entries: Seq<EntryV>)
    ensures
        crate::entry::is_sorted(
            crate::entry::sorted_entries(config_filtered(groups, i, q, entries)),
        ),
{
    crate::entry::lemma_sorted_entries_ensures(config_filtered(groups, i, q, entries));
}

/// Pinning an entry and then suppressing it is not a round trip back to
/// the initial state: afterwards the id sits in the group's `exclude`
/// list and is gone from its `included` list.
pub proof fn lemma_add_remove_round_trip(groups: Seq<GroupV>, i: int, id: Seq<char>)
    requires
        1 <= i <= groups.len(),
        groups[i - 1].filter is Categories,
    ensures
        filter_exclude(
            remove_entry_spec(add_entry_spec(groups, i, id), i, id)[i - 1].filter,
        ).contains(id),
        !filter_included(
            remove_entry_spec(add_entry_spec(groups, i, id), i, id)[i - 1].filter,
        ).contains(id),
{
    let g0 = groups[i - 1];
    let g1 = group_with_entry(g0, id);
    let after_add = add_entry_spec(groups, i, id);
    assert(after_add[i - 1] == g1);
    let g2 = group_without_entry(g1, id);
    let after = remove_entry_spec(after_add, i, id);
    assert(after[i - 1] == g2);
    match g0.filter {
        FilterV::Categories { categories, included, exclude } => {
            lemma_push_unique_contains(included, id, id);
            lemma_remove_id_contains(push_unique(included, id), id, id);
            lemma_push_unique_contains(remove_id(exclude, id), id, id);
        },
        FilterV::NoFilter => {},
    }
}

/// Suppressing an entry removes it from the group's membership: a group
/// whose filter has categories no longer matches an entry with that id.
pub proof fn lemma_remove_entry_unmatches(groups: Seq<GroupV>, i: int, id: Seq<char>, e: EntryV)
    requires
        1 <= i <= groups.len(),
        groups[i - 1].filter is Categories,
        e.id == id,
    ensures
        !group_matches(remove_entry_spec(groups, i, id)[i - 1], e),
{
    let g0 = groups[i - 1];
    let g2 = group_without_entry(g0, id);
    assert(remove_entry_spec(groups, i, id)[i - 1] == g2);
    match g0.filter {
        FilterV::Categories { categories, included, exclude } => {
            lemma_remove_id_contains(included, id, id);
            lemma_push_unique_contains(exclude, id, id);
        },
        FilterV::NoFilter => {},
    }
}

impl AppLibraryConfig {
    /// The reaction to the drag source's completion report: a move takes
    /// the entry out of its origin group; a copy leaves the origin group
    /// unchanged.
    pub fn on_drag_finished(&mut self, origin_group: usize, entry_id: &str, is_move: bool)
        ensures
            is_move ==> group_views(final(self).groups@) == remove_entry_spec(
                group_views(old(self).groups@),
                origin_group as int,
                entry_id@,
            ),
            !is_move ==> final(self).groups@ == old(self).groups@,
    {
        if is_move {
            self.remove_entry(origin_group, entry_id);
        }
    }
}



/// A non-empty search narrows a user group's list; it never widens it:
/// whatever the search text, every shown entry still belongs to the
/// group.
pub proof fn lemma_search_narrows(
    groups: Seq<GroupV>,
    i: int,
    q: Seq<char>,
    entries: Seq<EntryV>,
    e: EntryV,
)
    requires
        1 <= i <= groups.len(),
        crate::entry::sorted_entries(config_filtered(groups, i, q, entries)).contains(e),
    ensures
        group_matches(groups[i - 1], e),
{
    let shown = config_filtered(groups, i, q, entries);
    crate::entry::lemma_sorted_entries_contains(shown, e);
    lemma_filtered_seq_member(groups[i - 1], Seq::<GroupV>::empty(), q, entries, e);
}

/// The sort key of a group: its case-folded name.
pub open spec fn group_key(g: GroupV) -> Seq<char> {
    lower_of(g.name)
}

/// Inserts `g` into `s` before the first group whose key is strictly
/// greater; equal keys keep their existing order.
pub open spec fn insert_group_sorted(s: Seq<GroupV>, g: GroupV) -> Seq<GroupV>
    decreases s.len(),
{
    if s.len() == 0 {
        seq![g]
    } else if crate::text::lex_lt(group_key(g), group_key(s[0])) {
        seq![g] + s
    } else {
        seq![s[0]] + insert_group_sorted(s.drop_first(), g)
    }
}

/// Stable insertion sort of groups by case-folded name.
pub open spec fn sorted_groups(s: Seq<GroupV>) -> Seq<GroupV>
    decreases s.len(),
{
    if s.len() == 0 {
        Seq::<GroupV>::empty()
    } else {
        insert_group_sorted(sorted_groups(s.drop_last()), s.last())
    }
}

/// When `g`'s insertion point is `j`, `insert_group_sorted` equals a
/// plain positional insert at `j`.
proof fn lemma_insert_group_sorted_at(s: Seq<GroupV>, g: GroupV, j: int)
    requires
        0 <= j <= s.len(),
        forall|k: int| 0 <= k < j ==> !crate::text::lex_lt(group_key(g), group_key(s[k])),
        j < s.len() ==> crate::text::lex_lt(group_key(g), group_key(s[j])),
    ensures
        insert_group_sorted(s, g) == s.insert(j, g),
    decreases s.len(),
{
    if s.len() == 0 {
        assert(insert_group_sorted(s, g) =~= s.insert(0, g));
    } else if crate::text::lex_lt(group_key(g), group_key(s[0])) {
        assert(j == 0);
        assert(insert_group_sorted(s, g) =~= s.insert(0, g));
    } else {
        let t = s.drop_first();
        assert(forall|k: int| 0 <= k < j - 1 ==> t[k] == s[k + 1]);
        lemma_insert_group_sorted_at(t, g, j - 1);
        assert(insert_group_sorted(s, g) == seq![s[0]] + t.insert(j - 1, g));
        assert(seq![s[0]] + t.insert(j - 1, g) =~= s.insert(j, g));
    }
}

/// Decides whether `a` orders strictly before `b` by case-folded name.
fn group_lt(a: &AppGroup, b: &AppGroup) -> (r: bool)
    ensures
        r == crate::text::lex_lt(group_key(a@), group_key(b@)),
{
    let ka = chars_of(lowercase(a.name.as_str()).as_str());
    let kb = chars_of(lowercase(b.name.as_str()).as_str());
    crate::text::lex_lt_chars(&ka, &kb)
}

#[verifier::loop_isolation(false)]
fn insert_group(acc: &mut Vec<AppGroup>, g: AppGroup)
    ensures
        group_views(final(acc)@) == insert_group_sorted(group_views(old(acc)@), g@),
{
    let ghost s = group_views(old(acc)@);
    let ghost gv = g@;
    let mut j: usize = 0;
    while j < acc.len()
        invariant
            0 <= j <= acc@.len(),
            acc@ == old(acc)@,
            group_views(acc@) == s,
            forall|k: int| 0 <= k < j ==> !crate::text::lex_lt(group_key(gv), group_key(s[k])),
        decreases acc@.len() - j,
    {
        let is_lt = group_lt(&g, &acc[j]);
        proof {
            assert(group_views(acc@)[j as int] == acc@[j as int]@);
            assert(is_lt == crate::text::lex_lt(group_key(gv), group_key(s[j as int])));
        }
        if is_lt {
            proof {
                lemma_insert_group_sorted_at(s, gv, j as int);
            }
            acc.insert(j, g);
            proof {
                assert(group_views(acc@) =~= s.insert(j as int, gv));
                assert(group_views(acc@) == insert_group_sorted(s, gv));
            }
            return ;
        }
        j = j + 1;
    }
    proof {
        lemma_insert_group_sorted_at(s, gv, s.len() as int);
    }
    acc.push(g);
    proof {
        assert(group_views(acc@) =~= s.insert(s.len() as int, gv));
        assert(group_views(acc@) == insert_group_sorted(s, gv));
    }
}

/// Sorts user groups by case-folded name, as the configuration is
/// ordered when it is first loaded; groups with equal keys keep their
/// stored order.
#[verifier::loop_isolation(false)]
pub fn sort_groups(mut v: Vec<AppGroup>) -> (r: Vec<AppGroup>)
    ensures
        group_views(r@) == sorted_groups(group_views(v@)),
{
    let ghost orig = group_views(v@);
    let total = v.len();
    let mut acc: Vec<AppGroup> = Vec::new();
    let mut i: usize = 0;
    proof {
        assert(group_views(Seq::<AppGroup>::empty()) =~= Seq::<GroupV>::empty());
        assert(orig.take(0) =~= Seq::<GroupV>::empty());
    }
    while v.len() > 0
        invariant
            orig.len() == total,
            0 <= i <= orig.len(),
            group_views(v@) =~= orig.skip(i as int),
            group_views(acc@) == sorted_groups(orig.take(i as int)),
        decreases orig.len() - i,
    {
        proof {
            assert(group_views(v@).len() == v@.len());
            assert(orig.skip(i as int).len() == orig.len() - i);
            assert(i < orig.len());
            assert(group_views(v@)[0] == v@[0]@);
        }
        let ghost v_pre = v@;
        let g = v.remove(0);
        assert(g@ == orig[i as int]);
        insert_group(&mut acc, g);
        proof {
            assert(orig.take(i + 1).drop_last() =~= orig.take(i as int));
            assert(orig.take(i + 1).last() == orig[i as int]);
            assert(v@ =~= v_pre.drop_first());
            assert forall|k: int| 0 <= k < v@.len() implies group_views(v@)[k] == orig.skip(
                i + 1,
            )[k] by {
                assert(group_views(v@)[k] == v@[k]@);
                assert(v@[k] == v_pre[k + 1]);
                assert(group_views(v_pre)[k + 1] == v_pre[k + 1]@);
            }
            assert(group_views(v@) =~= orig.skip(i + 1));
        }
        i = i + 1;
    }
    proof {
        assert(i == orig.len());
        assert(orig.take(i as int) =~= orig);
    }
    acc
}

} // verus!
