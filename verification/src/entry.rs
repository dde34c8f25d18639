//! The desktop-entry model: the in-memory representation of a launchable
//! application, its abstract view for contracts, provenance classification
//! of an entry's origin path, and the tagging of entries whose visible
//! name repeats.

use vstd::prelude::*;
use crate::text::{
    chars_of, contains_seq, has_substring, lex_lt, lowercase, lower_of, trimmed, trimmed_of,
};
use vstd::pervasive::VecAdditionalExecFns;

verus! {

/// A named sub-command of a desktop entry.
#[derive(Debug)]
pub struct DesktopAction {
    pub name: String,
    pub exec_line: String,
}

/// A launchable application.  Immutable once loaded for a given scan; a
/// fresh scan replaces the whole collection.  Entries without a `path`
/// are not draggable.
#[derive(Debug)]
pub struct DesktopEntryData {
    /// Unique identifier of the entry.
    pub id: String,
    /// Display name.
    pub name: String,
    /// Command line template; may contain `%`-placeholders.
    pub exec_line: Option<String>,
    /// Icon reference, if any.
    pub icon: Option<String>,
    /// Free-form category tags.
    pub categories: Vec<String>,
    /// Origin file of the entry, if it came from a file.
    pub path: Option<String>,
    /// Named sub-commands.
    pub actions: Vec<DesktopAction>,
}

/// A draggable reference to a desktop entry, if any.
#[derive(Debug)]
pub struct BoxedDesktopEntryData(pub Option<DesktopEntryData>);

/// Abstract view of a [`DesktopAction`].
#[verifier::ext_equal]
pub struct ActionV {
    pub name: Seq<char>,
    pub exec_line: Seq<char>,
}

/// Abstract view of a [`DesktopEntryData`].
#[verifier::ext_equal]
pub struct EntryV {
    pub id: Seq<char>,
    pub name: Seq<char>,
    pub exec_line: Option<Seq<char>>,
    pub icon: Option<Seq<char>>,
    pub categories: Seq<Seq<char>>,
    pub path: Option<Seq<char>>,
    pub actions: Seq<ActionV>,
}

impl View for DesktopAction {
    type V = ActionV;

    open spec fn view(&self) -> ActionV {
        ActionV { name: self.name@, exec_line: self.exec_line@ }
    }
}

pub open spec fn opt_view(o: Option<String>) -> Option<Seq<char>> {
    match o {
        Option::Some(s) => Option::Some(s@),
        Option::None => Option::None,
    }
}

impl View for DesktopEntryData {
    type V = EntryV;

    open spec fn view(&self) -> EntryV {
        EntryV {
            id: self.id@,
            name: self.name@,
            exec_line: opt_view(self.exec_line),
            icon: opt_view(self.icon),
            categories: self.categories@.map_values(|c: String| c@),
            path: opt_view(self.path),
            actions: self.actions@.map_values(|a: DesktopAction| a@),
        }
    }
}

/// The views of a sequence of entries.
pub open spec fn entry_views(s: Seq<DesktopEntryData>) -> Seq<EntryV> {
    s.map_values(|e: DesktopEntryData| e@)
}

fn clone_opt_string(o: &Option<String>) -> (r: Option<String>)
    ensures
        opt_view(r) == opt_view(*o),
{
    match o {
        Option::Some(s) => Option::Some(s.clone()),
        Option::None => Option::None,
    }
}

fn clone_string_vec(v: &Vec<String>) -> (r: Vec<String>)
    ensures
        r@.map_values(|c: String| c@) =~= v@.map_values(|c: String| c@),
{
    let mut r: Vec<String> = Vec::new();
    let mut i: usize = 0;
    while i < v.len()
        invariant
            0 <= i <= v@.len(),
            r@.len() == i,
            forall|k: int| 0 <= k < i ==> r@[k]@ == v@[k]@,
        decreases v@.len() - i,
    {
        r.push(v[i].clone());
        i = i + 1;
    }
    r
}

impl DesktopAction {
    /// A copy whose view equals this action's view.
    pub fn duplicate(&self) -> (r: Self)
        ensures
            r@ == self@,
    {
        DesktopAction { name: self.name.clone(), exec_line: self.exec_line.clone() }
    }
}

impl DesktopEntryData {
    /// A copy whose view equals this entry's view.
    pub fn duplicate(&self) -> (r: Self)
        ensures
            r@ == self@,
    {
        let mut actions: Vec<DesktopAction> = Vec::new();
        let mut i: usize = 0;
        while i < self.actions.len()
            invariant
                0 <= i <= self.actions@.len(),
                actions@.len() == i,
                forall|k: int| 0 <= k < i ==> actions@[k]@ == self.actions@[k]@,
            decreases self.actions@.len() - i,
        {
            actions.push(self.actions[i].duplicate());
            i = i + 1;
        }
        let r = DesktopEntryData {
            id: self.id.clone(),
            name: self.name.clone(),
            exec_line: clone_opt_string(&self.exec_line),
            icon: clone_opt_string(&self.icon),
            categories: clone_string_vec(&self.categories),
            path: clone_opt_string(&self.path),
            actions,
        };
        assert(r@.categories =~= self@.categories);
        assert(r@.actions =~= self@.actions);
        assert(r@ =~= self@);
        r
    }
}

/// Where an entry's origin file comes from; used only to disambiguate
/// entries that look identical.
#[derive(Debug, Clone, Copy, PartialEq, Eq, Structural)]
pub enum AppSource {
    Local,
    System,
    Flatpak,
    Snap,
    Nix,
    Other,
}

/// The provenance tag derived from an origin path.
pub open spec fn source_of_path(p: Seq<char>) -> AppSource {
    if has_substring(p, "flatpak"@) {
        AppSource::Flatpak
    } else if has_substring(p, "snap"@) {
        AppSource::Snap
    } else if has_substring(p, "nix"@) {
        AppSource::Nix
    } else if has_substring(p, ".local/share"@) {
        AppSource::Local
    } else if has_substring(p, "/usr/"@) {
        AppSource::System
    } else {
        AppSource::Other
    }
}

impl AppSource {
    /// Classifies an origin path by the well-known directory names that
    /// occur in it.
    pub fn classify(path: &str) -> (r: Self)
        ensures
            r == source_of_path(path@),
    {
        let p = chars_of(path);
        if contains_seq(&p, &chars_of("flatpak")) {
            AppSource::Flatpak
        } else if contains_seq(&p, &chars_of("snap")) {
            AppSource::Snap
        } else if contains_seq(&p, &chars_of("nix")) {
            AppSource::Nix
        } else if contains_seq(&p, &chars_of(".local/share")) {
            AppSource::Local
        } else if contains_seq(&p, &chars_of("/usr/")) {
            AppSource::System
        } else {
            AppSource::Other
        }
    }

    /// The icon that marks the tag beside an entry's name; none for an
    /// unrecognized origin.
    pub fn as_icon(&self) -> (r: Option<&'static str>)
        ensures
            match *self {
                AppSource::Local => r matches Option::Some(n) && n@ == "app-source-local-symbolic"@,
                AppSource::System => r matches Option::Some(n) && n@
                    == "app-source-system-symbolic"@,
                AppSource::Flatpak => r matches Option::Some(n) && n@ == "app-source-flatpak"@,
                AppSource::Snap => r matches Option::Some(n) && n@ == "app-source-snap"@,
                AppSource::Nix => r matches Option::Some(n) && n@ == "app-source-nix"@,
                AppSource::Other => r is None,
            },
    {
        match self {
            AppSource::Local => Option::Some("app-source-local-symbolic"),
            AppSource::System => Option::Some("app-source-system-symbolic"),
            AppSource::Flatpak => Option::Some("app-source-flatpak"),
            AppSource::Snap => Option::Some("app-source-snap"),
            AppSource::Nix => Option::Some("app-source-nix"),
            AppSource::Other => Option::None,
        }
    }

    /// A short label for the tag, for display beside an entry's name.
    pub fn label(&self) -> (r: &'static str)
        ensures
            r@ == match *self {
                AppSource::Local => "Local"@,
                AppSource::System => "System"@,
                AppSource::Flatpak => "Flatpak"@,
                AppSource::Snap => "Snap"@,
                AppSource::Nix => "Nix"@,
                AppSource::Other => "Other"@,
            },
    {
        match self {
            AppSource::Local => "Local",
            AppSource::System => "System",
            AppSource::Flatpak => "Flatpak",
            AppSource::Snap => "Snap",
            AppSource::Nix => "Nix",
            AppSource::Other => "Other",
        }
    }
}

/// The key under which display names are compared for duplicate
/// detection: case-folded, with surrounding whitespace removed.
pub open spec fn norm_key(name: Seq<char>) -> Seq<char> {
    trimmed_of(lower_of(name))
}

/// Case-folds a name and trims surrounding whitespace.
pub fn normalized(s: &str) -> (r: String)
    ensures
        r@ == norm_key(s@),
{
    let low = lowercase(s);
    trimmed(low.as_str())
}

/// One left-to-right scan over the entries, flagging consecutive runs
/// whose normalized name repeats or whose id repeats.  Returns the flags
/// together with the scan state: the run's base name key, the run's base
/// id, and the length of the current run.
pub open spec fn dup_scan(s: Seq<EntryV>) -> (Seq<bool>, Seq<char>, Seq<char>, nat)
    decreases s.len(),
{
    if s.len() == 0 {
        (Seq::<bool>::empty(), norm_key(Seq::<char>::empty()), Seq::<char>::empty(), 0 as nat)
    } else {
        let prev = dup_scan(s.drop_last());
        let flags = prev.0;
        let e = s.last();
        if norm_key(e.name) == prev.1 || e.id == prev.2 {
            let marked = if prev.3 == 1 {
                flags.update(flags.len() - 1, true)
            } else {
                flags
            };
            (marked.push(true), prev.1, prev.2, prev.3 + 1)
        } else {
            (flags.push(false), norm_key(e.name), e.id, 1 as nat)
        }
    }
}

proof fn lemma_dup_scan_len(s: Seq<EntryV>)
    ensures
        dup_scan(s).0.len() == s.len(),
        dup_scan(s).3 <= s.len(),
    decreases s.len(),
{
    if s.len() > 0 {
        lemma_dup_scan_len(s.drop_last());
    }
}

/// Flags the entries whose normalized name or id repeats consecutively.
/// The flags are used only to disambiguate identical-looking entries;
/// they have no effect on filter membership.
#[verifier::loop_isolation(false)]
pub fn duplicate_flags(entries: &Vec<DesktopEntryData>) -> (flags: Vec<bool>)
    ensures
        flags@ == dup_scan(entry_views(entries@)).0,
        flags@.len() == entries@.len(),
{
    let ghost views = entry_views(entries@);
    proof {
        lemma_dup_scan_len(views);
        reveal_strlit("");
        assert(""@ =~= Seq::<char>::empty());
        assert(views.take(0) =~= Seq::<EntryV>::empty());
    }
    let mut flags: Vec<bool> = Vec::new();
    let mut cur_key: String = normalized("");
    let mut cur_id: String = String::new();
    let mut cnt: usize = 0;
    let mut i: usize = 0;
    while i < entries.len()
        invariant
            0 <= i <= views.len(),
            flags@.len() == i,
            cnt <= i,
            dup_scan(views.take(i as int)).0 == flags@,
            dup_scan(views.take(i as int)).1 == cur_key@,
            dup_scan(views.take(i as int)).2 == cur_id@,
            dup_scan(views.take(i as int)).3 == cnt as nat,
        decreases views.len() - i,
    {
        proof {
            assert(entry_views(entries@)[i as int] == entries@[i as int]@);
            assert(views.take(i + 1).drop_last() =~= views.take(i as int));
            assert(views.take(i + 1).last() == views[i as int]);
            lemma_dup_scan_len(views.take(i + 1));
        }
        let k = normalized(entries[i].name.as_str());
        let same = k == cur_key || entries[i].id == cur_id;
        if same {
            if cnt == 1 {
                flags.set(i - 1, true);
            }
            flags.push(true);
            cnt = cnt + 1;
        } else {
            flags.push(false);
            cur_key = k;
            cur_id = entries[i].id.clone();
            cnt = 1;
        }
        i = i + 1;
    }
    proof {
        assert(views.take(views.len() as int) =~= views);
    }
    flags
}

/// The sort key of an entry: its case-folded display name.
pub open spec fn entry_key(e: EntryV) -> Seq<char> {
    lower_of(e.name)
}

/// Inserts `x` into `s` before the first element whose key is strictly
/// greater; equal keys keep their existing order.
pub open spec fn insert_sorted(s: Seq<EntryV>, x: EntryV) -> Seq<EntryV>
    decreases s.len(),
{
    if s.len() == 0 {
        seq![x]
    } else if lex_lt(entry_key(x), entry_key(s[0])) {
        seq![x] + s
    } else {
        seq![s[0]] + insert_sorted(s.drop_first(), x)
    }
}

/// Stable insertion sort of entries by case-folded display name.
pub open spec fn sorted_entries(s: Seq<EntryV>) -> Seq<EntryV>
    decreases s.len(),
{
    if s.len() == 0 {
        Seq::empty()
    } else {
        insert_sorted(sorted_entries(s.drop_last()), s.last())
    }
}

/// `s` has no inversion: no element's key is strictly below the key of an
/// earlier element.
pub open spec fn is_sorted(s: Seq<EntryV>) -> bool {
    forall|i: int, j: int|
        0 <= i < j < s.len() ==> !lex_lt(entry_key(s[j]), entry_key(s[i]))
}

proof fn lemma_insert_sorted_len(s: Seq<EntryV>, x: EntryV)
    ensures
        insert_sorted(s, x).len() == s.len() + 1,
    decreases s.len(),
{
    if s.len() > 0 && !lex_lt(entry_key(x), entry_key(s[0])) {
        lemma_insert_sorted_len(s.drop_first(), x);
    }
}

/// Inserting into a sorted sequence keeps it sorted.
proof fn lemma_insert_sorted_is_sorted(s: Seq<EntryV>, x: EntryV)
    requires
        is_sorted(s),
    ensures
        is_sorted(insert_sorted(s, x)),
    decreases s.len(),
{
    lemma_insert_sorted_len(s, x);
    if s.len() == 0 {
    } else if lex_lt(entry_key(x), entry_key(s[0])) {
        let r = seq![x] + s;
        assert forall|i: int, j: int|
            0 <= i < j < r.len() implies !lex_lt(entry_key(r[j]), entry_key(r[i])) by {
            if i == 0 {
                if lex_lt(entry_key(r[j]), entry_key(x)) {
                    crate::text::lemma_lex_lt_trans(
                        entry_key(r[j]),
                        entry_key(x),
                        entry_key(s[0]),
                    );
                    assert(r[j] == s[j - 1]);
                    if j == 1 {
                        crate::text::lemma_lex_lt_irrefl(entry_key(s[0]));
                    }
                }
            } else {
                assert(r[i] == s[i - 1]);
                assert(r[j] == s[j - 1]);
            }
        }
    } else {
        let t = s.drop_first();
        assert(is_sorted(t)) by {
            assert(forall|k: int| 0 <= k < t.len() ==> t[k] == s[k + 1]);
        }
        lemma_insert_sorted_is_sorted(t, x);
        lemma_insert_sorted_len(t, x);
        let rt = insert_sorted(t, x);
        let r = seq![s[0]] + rt;
        // every element of `rt` is an element of `t` or is `x`, and none is
        // strictly below `s[0]`
        lemma_insert_sorted_membership(t, x);
        assert forall|i: int, j: int|
            0 <= i < j < r.len() implies !lex_lt(entry_key(r[j]), entry_key(r[i])) by {
            if i == 0 {
                assert(r[j] == rt[j - 1]);
                if lex_lt(entry_key(rt[j - 1]), entry_key(s[0])) {
                    if rt[j - 1] == x {
                    } else {
                        let k = choose|k: int| 0 <= k < t.len() && t[k] == rt[j - 1];
                        assert(!lex_lt(entry_key(s[k + 1]), entry_key(s[0])));
                    }
                }
            } else {
                assert(r[i] == rt[i - 1] && r[j] == rt[j - 1]);
            }
        }
    }
}

/// Every element of `insert_sorted(s, x)` is `x` or an element of `s`.
proof fn lemma_insert_sorted_membership(s: Seq<EntryV>, x: EntryV)
    ensures
        insert_sorted(s, x).len() == s.len() + 1,
        forall|j: int|
            0 <= j < insert_sorted(s, x).len() ==> insert_sorted(s, x)[j] == x || exists|k: int|
                0 <= k < s.len() && s[k] == #[trigger] insert_sorted(s, x)[j],
    decreases s.len(),
{
    lemma_insert_sorted_len(s, x);
    if s.len() == 0 {
    } else if lex_lt(entry_key(x), entry_key(s[0])) {
    } else {
        lemma_insert_sorted_membership(s.drop_first(), x);
        let t = s.drop_first();
        let rt = insert_sorted(t, x);
        let r = seq![s[0]] + rt;
        assert forall|j: int|
            0 <= j < r.len() implies r[j] == x || exists|k: int|
                0 <= k < s.len() && s[k] == #[trigger] r[j] by {
            if j == 0 {
                assert(s[0] == r[0]);
            } else {
                assert(r[j] == rt[j - 1]);
                if rt[j - 1] != x {
                    let k = choose|k: int| 0 <= k < t.len() && t[k] == rt[j - 1];
                    assert(s[k + 1] == r[j]);
                }
            }
        }
    }
}

/// The multiset of entries is preserved by sorting.
proof fn lemma_insert_sorted_multiset(s: Seq<EntryV>, x: EntryV)
    ensures
        insert_sorted(s, x).to_multiset() == s.push(x).to_multiset(),
    decreases s.len(),
{
    broadcast use vstd::seq_lib::group_to_multiset_ensures;

    if s.len() == 0 {
        assert(insert_sorted(s, x) =~= s.push(x));
    } else if lex_lt(entry_key(x), entry_key(s[0])) {
        let r = seq![x] + s;
        assert(r =~= s.insert(0, x));
        vstd::seq_lib::lemma_multiset_commutative(seq![x], s);
        assert(s.push(x) =~= s + seq![x]);
        vstd::seq_lib::lemma_multiset_commutative(s, seq![x]);
    } else {
        let t = s.drop_first();
        lemma_insert_sorted_multiset(t, x);
        let rt = insert_sorted(t, x);
        let r = seq![s[0]] + rt;
        vstd::seq_lib::lemma_multiset_commutative(seq![s[0]], rt);
        assert(t.push(x) =~= t + seq![x]);
        vstd::seq_lib::lemma_multiset_commutative(t, seq![x]);
        assert(s.push(x) =~= (seq![s[0]] + t) + seq![x]);
        vstd::seq_lib::lemma_multiset_commutative(seq![s[0]] + t, seq![x]);
        vstd::seq_lib::lemma_multiset_commutative(seq![s[0]], t);
    }
}

/// Sorting yields a sorted sequence with the same entries.
pub proof fn lemma_sorted_entries_ensures(s: Seq<EntryV>)
    ensures
        is_sorted(sorted_entries(s)),
        sorted_entries(s).to_multiset() == s.to_multiset(),
        sorted_entries(s).len() == s.len(),
    decreases s.len(),
{
    broadcast use vstd::seq_lib::group_to_multiset_ensures;

    if s.len() == 0 {
        assert(sorted_entries(s) =~= s);
    } else {
        let t = s.drop_last();
        lemma_sorted_entries_ensures(t);
        lemma_insert_sorted_is_sorted(sorted_entries(t), s.last());
        lemma_insert_sorted_multiset(sorted_entries(t), s.last());
        lemma_insert_sorted_len(sorted_entries(t), s.last());
        assert(sorted_entries(t).push(s.last()).to_multiset() == sorted_entries(
            t,
        ).to_multiset().insert(s.last()));
        assert(t.push(s.last()) =~= s);
    }
}

/// An entry occurs in the sorted sequence iff it occurs in the input.
pub proof fn lemma_sorted_entries_contains(s: Seq<EntryV>, x: EntryV)
    ensures
        sorted_entries(s).contains(x) <==> s.contains(x),
{
    broadcast use vstd::seq_lib::group_to_multiset_ensures;

    lemma_sorted_entries_ensures(s);
    assert(sorted_entries(s).contains(x) <==> sorted_entries(s).to_multiset().contains(x));
    assert(s.contains(x) <==> s.to_multiset().contains(x));
}

/// Decides whether `a` orders strictly before `b` by case-folded name.
pub fn entry_lt(a: &DesktopEntryData, b: &DesktopEntryData) -> (r: bool)
    ensures
        r == lex_lt(entry_key(a@), entry_key(b@)),
{
    let ka = chars_of(lowercase(self_name(a)).as_str());
    let kb = chars_of(lowercase(self_name(b)).as_str());
    crate::text::lex_lt_chars(&ka, &kb)
}

fn self_name(e: &DesktopEntryData) -> (r: &str)
    ensures
        r@ == e@.name,
{
    e.name.as_str()
}

#[verifier::loop_isolation(false)]
fn insert_entry(acc: &mut Vec<DesktopEntryData>, x: DesktopEntryData)
    ensures
        entry_views(final(acc)@) == insert_sorted(entry_views(old(acc)@), x@),
{
    let ghost s = entry_views(old(acc)@);
    let ghost xv = x@;
    let mut j: usize = 0;
    while j < acc.len()
        invariant
            0 <= j <= acc@.len(),
            acc@ == old(acc)@,
            entry_views(acc@) == s,
            forall|k: int| 0 <= k < j ==> !lex_lt(entry_key(xv), entry_key(s[k])),
        decreases acc@.len() - j,
    {
        let is_lt = entry_lt(&x, &acc[j]);
        proof {
            assert(entry_views(acc@)[j as int] == acc@[j as int]@);
            assert(is_lt == lex_lt(entry_key(xv), entry_key(s[j as int])));
        }
        if is_lt {
            proof {
                lemma_insert_sorted_prefix(s, xv, j as int);
            }
            acc.insert(j, x);
            proof {
                assert(entry_views(acc@) =~= s.insert(j as int, xv));
                assert(entry_views(acc@) == insert_sorted(s, xv));
            }
            return ;
        }
        j = j + 1;
    }
    proof {
        lemma_insert_sorted_prefix(s, xv, s.len() as int);
    }
    acc.push(x);
    proof {
        assert(entry_views(acc@) =~= s.insert(s.len() as int, xv));
        assert(entry_views(acc@) == insert_sorted(s, xv));
    }
}

/// When `x`'s insertion point is `j`, `insert_sorted` equals a plain
/// positional insert at `j`.
proof fn lemma_insert_sorted_prefix(s: Seq<EntryV>, x: EntryV, j: int)
    requires
        0 <= j <= s.len(),
        forall|k: int| 0 <= k < j ==> !lex_lt(entry_key(x), entry_key(s[k])),
        j < s.len() ==> lex_lt(entry_key(x), entry_key(s[j])),
    ensures
        insert_sorted(s, x) == s.insert(j, x),
    decreases s.len(),
{
    if s.len() == 0 {
        assert(insert_sorted(s, x) =~= s.insert(0, x));
    } else if lex_lt(entry_key(x), entry_key(s[0])) {
        assert(j == 0);
        assert(insert_sorted(s, x) =~= s.insert(0, x));
    } else {
        let t = s.drop_first();
        assert(forall|k: int| 0 <= k < j - 1 ==> t[k] == s[k + 1]);
        lemma_insert_sorted_prefix(t, x, j - 1);
        assert(insert_sorted(s, x) == seq![s[0]] + t.insert(j - 1, x));
        assert(seq![s[0]] + t.insert(j - 1, x) =~= s.insert(j, x));
    }
}

/// Sorts entries by case-folded display name; the relative order of
/// entries with equal keys is kept.
pub fn sort_entries(mut v: Vec<DesktopEntryData>) -> (r: Vec<DesktopEntryData>)
    ensures
        entry_views(r@) == sorted_entries(entry_views(v@)),
{
    let ghost orig = entry_views(v@);
    let total = v.len();
    let mut acc: Vec<DesktopEntryData> = Vec::new();
    let mut i: usize = 0;
    proof {
        assert(entry_views(Seq::<DesktopEntryData>::empty()) =~= Seq::<EntryV>::empty());
        assert(orig.take(0) =~= Seq::<EntryV>::empty());
    }
    while v.len() > 0
        invariant
            orig.len() == total,
            0 <= i <= orig.len(),
            entry_views(v@) =~= orig.skip(i as int),
            entry_views(acc@) == sorted_entries(orig.take(i as int)),
        decreases orig.len() - i,
    {
        proof {
            assert(entry_views(v@).len() == v@.len());
            assert(orig.skip(i as int).len() == orig.len() - i);
            assert(i < orig.len());
            assert(entry_views(v@)[0] == v@[0]@);
        }
        let ghost v_pre = v@;
        let x = v.remove(0);
        assert(x@ == orig[i as int]);
        insert_entry(&mut acc, x);
        proof {
            assert(orig.take(i + 1).drop_last() =~= orig.take(i as int));
            assert(orig.take(i + 1).last() == orig[i as int]);
            assert(v@ =~= v_pre.drop_first());
            assert forall|k: int| 0 <= k < v@.len() implies entry_views(v@)[k] == orig.skip(
                i + 1,
            )[k] by {
                assert(entry_views(v@)[k] == v@[k]@);
                assert(v@[k] == v_pre[k + 1]);
                assert(entry_views(v_pre)[k + 1] == v_pre[k + 1]@);
            }
            assert(entry_views(v@) =~= orig.skip(i + 1));
        }
        i = i + 1;
    }
    proof {
        assert(i == orig.len());
        assert(orig.take(i as int) =~= orig);
    }
    acc
}

} // verus!
