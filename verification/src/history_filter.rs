//! The state of the history view: its filters, the runs the user selected, the
//! methodology records shown expanded and the groups shown collapsed; and the
//! rows the view lists for a query's runs.
use vstd::prelude::*;
use std::collections::HashSet;
use crate::i18n::{t, I18n};
use crate::models::{sort_order_of, HistorySortOrder};
use crate::text::{str_is, string_from};

verus! {

broadcast use vstd::std_specs::hash::group_hash_axioms;

/// No value occurs twice.
pub open spec fn no_dups<T>(s: Seq<T>) -> bool {
    forall|i: int, j: int| 0 <= i < j < s.len() ==> s[i] != s[j]
}

/// The first position of `x` in `s`.
pub open spec fn first_pos<T>(s: Seq<T>, x: T) -> int
    recommends
        s.contains(x),
{
    choose|i: int| 0 <= i < s.len() && s[i] == x && forall|j: int| 0 <= j < i ==> s[j] != x
}

/// `s` with the element at `i` taken out.
pub open spec fn without_at<T>(s: Seq<T>, i: int) -> Seq<T> {
    s.take(i) + s.skip(i + 1)
}

/// The selection after `id` is toggled: its first occurrence taken out when it
/// is selected, else appended.
pub open spec fn toggled(s: Seq<i64>, id: i64) -> Seq<i64> {
    if s.contains(id) {
        without_at(s, first_pos(s, id))
    } else {
        s.push(id)
    }
}

/// A set with `x` taken out when present, else put in.
pub open spec fn set_toggled<T>(s: Set<T>, x: T) -> Set<T> {
    if s.contains(x) {
        s.remove(x)
    } else {
        s.insert(x)
    }
}

/// The filters and selections of the history view.
pub struct HistoryFilterState {
    pub search: String,
    pub category: String,
    pub gpu_mode: String,
    pub status: String,
    pub sort_order: HistorySortOrder,
    /// Selected runs, in the order they were selected.
    pub selected_ids: Vec<i64>,
    pub expanded_methodology_ids: HashSet<i64>,
    /// `None` shows every group; `Some("")` shows runs outside any group.
    pub selected_group: Option<String>,
    /// Names of the groups shown collapsed, each once.
    pub collapsed_group_names: Vec<String>,
}

impl HistoryFilterState {
    /// The selection lists each run once and each collapsed group once.
    pub open spec fn wf(&self) -> bool {
        &&& no_dups(self.selected_ids@)
        &&& no_dups(self.collapsed_group_names.deep_view())
    }

    /// The names of the collapsed groups.
    pub open spec fn collapsed(&self) -> Set<Seq<char>> {
        self.collapsed_group_names.deep_view().to_set()
    }

    /// The state the history view starts in: no search, the "all" choice of each
    /// filter in the current language, newest first, nothing selected, expanded
    /// or collapsed.
    pub fn new(i18n: &I18n) -> (r: Self)
        ensures
            r.wf(),
            r.search@ == Seq::<char>::empty(),
            r.category@ == i18n.text_for("cat_all"@),
            r.gpu_mode@ == i18n.text_for("gpu_filter_all"@),
            r.status@ == i18n.text_for("status_all"@),
            r.sort_order == HistorySortOrder::DateDesc,
            r.selected_ids@ == Seq::<i64>::empty(),
            r.expanded_methodology_ids@ == Set::<i64>::empty(),
            r.selected_group is None,
            r.collapsed_group_names@ == Seq::<String>::empty(),
    {
        let r = HistoryFilterState {
            search: String::new(),
            category: t(i18n, "cat_all"),
            gpu_mode: t(i18n, "gpu_filter_all"),
            status: t(i18n, "status_all"),
            sort_order: HistorySortOrder::DateDesc,
            selected_ids: Vec::new(),
            expanded_methodology_ids: HashSet::new(),
            selected_group: None,
            collapsed_group_names: Vec::new(),
        };
        assert(r.collapsed_group_names.deep_view() =~= Seq::<Seq<char>>::empty());
        r
    }

    /// Sets the sort order from its label.
    pub fn set_sort_order(&mut self, label: &str)
        ensures
            final(self).sort_order == sort_order_of(label@),
            final(self).selected_ids == old(self).selected_ids,
            final(self).expanded_methodology_ids == old(self).expanded_methodology_ids,
            final(self).collapsed_group_names == old(self).collapsed_group_names,
            final(self).selected_group == old(self).selected_group,
    {
        self.sort_order = HistorySortOrder::from_display_str(label);
    }

    /// Whether run `id` is selected.
    pub fn is_selected(&self, id: i64) -> (r: bool)
        ensures
            r == self.selected_ids@.contains(id),
    {
        let mut i: usize = 0;
        while i < self.selected_ids.len()
            invariant
                i <= self.selected_ids@.len(),
                forall|j: int| 0 <= j < i ==> self.selected_ids@[j] != id,
            decreases self.selected_ids@.len() - i,
        {
            if self.selected_ids[i] == id {
                return true;
            }
            i += 1;
        }
        false
    }

    /// Selects run `id`, or takes it out of the selection when it is selected.
    pub fn toggle_selection(&mut self, id: i64)
        ensures
            final(self).selected_ids@ == toggled(old(self).selected_ids@, id),
            final(self).expanded_methodology_ids == old(self).expanded_methodology_ids,
            final(self).collapsed_group_names == old(self).collapsed_group_names,
            final(self).selected_group == old(self).selected_group,
            final(self).sort_order == old(self).sort_order,
    {
        match self.selected_pos(id) {
            Some(i) => {
                let ghost s = self.selected_ids@;
                assert(first_pos(s, id) == i as int);
                self.selected_ids.remove(i);
                assert(self.selected_ids@ =~= without_at(s, i as int));
            },
            None => {
                self.selected_ids.push(id);
            },
        }
    }

    fn selected_pos(&self, id: i64) -> (r: Option<usize>)
        ensures
            match r {
                Some(i) => i < self.selected_ids@.len() && self.selected_ids@[i as int] == id
                    && forall|j: int| 0 <= j < i ==> self.selected_ids@[j] != id,
                None => !self.selected_ids@.contains(id),
            },
    {
        let mut i: usize = 0;
        while i < self.selected_ids.len()
            invariant
                i <= self.selected_ids@.len(),
                forall|j: int| 0 <= j < i ==> self.selected_ids@[j] != id,
            decreases self.selected_ids@.len() - i,
        {
            if self.selected_ids[i] == id {
                return Some(i);
            }
            i += 1;
        }
        None
    }

    /// Empties the selection.
    pub fn clear_selection(&mut self)
        ensures
            final(self).selected_ids@ == Seq::<i64>::empty(),
            final(self).expanded_methodology_ids == old(self).expanded_methodology_ids,
            final(self).collapsed_group_names == old(self).collapsed_group_names,
            final(self).selected_group == old(self).selected_group,
    {
        self.selected_ids.clear();
    }

    /// Expands methodology record `id`, or collapses it when it is expanded.
    pub fn toggle_methodology_expand(&mut self, id: i64)
        ensures
            final(self).expanded_methodology_ids@ == set_toggled(
                old(self).expanded_methodology_ids@,
                id,
            ),
            final(self).selected_ids == old(self).selected_ids,
            final(self).collapsed_group_names == old(self).collapsed_group_names,
            final(self).selected_group == old(self).selected_group,
    {
        if self.expanded_methodology_ids.contains(&id) {
            self.expanded_methodology_ids.remove(&id);
        } else {
            self.expanded_methodology_ids.insert(id);
        }
    }

    fn collapsed_pos(&self, name: &str) -> (r: Option<usize>)
        ensures
            match r {
                Some(i) => i < self.collapsed_group_names@.len()
                    && self.collapsed_group_names.deep_view()[i as int] == name@,
                None => !self.collapsed_group_names.deep_view().contains(name@),
            },
    {
        let ghost d = self.collapsed_group_names.deep_view();
        let mut i: usize = 0;
        while i < self.collapsed_group_names.len()
            invariant
                d == self.collapsed_group_names.deep_view(),
                d.len() == self.collapsed_group_names@.len(),
                i <= d.len(),
                forall|j: int| 0 <= j < i ==> d[j] != name@,
            decreases d.len() - i,
        {
            if str_is(self.collapsed_group_names[i].as_str(), name) {
                return Some(i);
            }
            i += 1;
        }
        None
    }

    /// Collapses group `name`, or expands it when it is collapsed.
    pub fn toggle_group_collapsed(&mut self, name: &str)
        requires
            old(self).wf(),
        ensures
            final(self).wf(),
            final(self).collapsed() == set_toggled(old(self).collapsed(), name@),
            final(self).selected_ids == old(self).selected_ids,
            final(self).expanded_methodology_ids == old(self).expanded_methodology_ids,
            final(self).selected_group == old(self).selected_group,
    {
        match self.collapsed_pos(name) {
            Some(i) => {
                self.remove_collapsed_at(i);
            },
            None => {
                let ghost d = self.collapsed_group_names.deep_view();
                self.collapsed_group_names.push(string_from(name));
                assert(self.collapsed_group_names.deep_view() =~= d.push(name@));
                assert(d.push(name@).to_set() =~= d.to_set().insert(name@)) by {
                    d.lemma_push_to_set_commute(name@);
                }
            },
        }
    }

    fn remove_collapsed_at(&mut self, i: usize)
        requires
            old(self).wf(),
            i < old(self).collapsed_group_names@.len(),
        ensures
            final(self).wf(),
            final(self).collapsed() == old(self).collapsed().remove(
                old(self).collapsed_group_names.deep_view()[i as int],
            ),
            final(self).selected_ids == old(self).selected_ids,
            final(self).expanded_methodology_ids == old(self).expanded_methodology_ids,
            final(self).selected_group == old(self).selected_group,
    {
        let ghost d = self.collapsed_group_names.deep_view();
        let ghost x = d[i as int];
        self.collapsed_group_names.remove(i);
        let ghost e = self.collapsed_group_names.deep_view();
        assert(e =~= without_at(d, i as int));
        assert forall|a: int, b: int| 0 <= a < b < e.len() implies e[a] != e[b] by {
            let a2 = if a < i { a } else { a + 1 };
            let b2 = if b < i { b } else { b + 1 };
            assert(e[a] == d[a2] && e[b] == d[b2]);
        }
        assert(e.to_set() =~= d.to_set().remove(x)) by {
            assert forall|y: Seq<char>| e.to_set().contains(y) <==> d.to_set().remove(x).contains(y) by {
                if e.to_set().contains(y) {
                    let k = choose|k: int| 0 <= k < e.len() && e[k] == y;
                    let k2 = if k < i { k } else { k + 1 };
                    assert(d[k2] == y);
                    assert(k2 != i);
                }
                if d.to_set().remove(x).contains(y) {
                    let k = choose|k: int| 0 <= k < d.len() && d[k] == y;
                    assert(k != i);
                    if k < i {
                        assert(e[k] == y);
                    } else {
                        assert(e[k - 1] == y);
                    }
                }
            }
        }
    }

    /// Shows group `name` expanded (a group is shown expanded once it is made).
    pub fn expand_group(&mut self, name: &str)
        requires
            old(self).wf(),
        ensures
            final(self).wf(),
            final(self).collapsed() == old(self).collapsed().remove(name@),
            final(self).selected_ids == old(self).selected_ids,
            final(self).expanded_methodology_ids == old(self).expanded_methodology_ids,
            final(self).selected_group == old(self).selected_group,
    {
        match self.collapsed_pos(name) {
            Some(i) => {
                self.remove_collapsed_at(i);
            },
            None => {
                assert(self.collapsed() =~= self.collapsed().remove(name@));
            },
        }
    }

    /// Chooses the group shown: the "all groups" choice shows every group, the
    /// "ungrouped" choice shows the runs outside any group, any other name that
    /// group.
    pub fn select_group_filter(&mut self, i18n: &I18n, name: &str)
        ensures
            final(self).selected_group.deep_view() == if name@ == i18n.text_for("group_filter_all"@) {
                None
            } else if name@ == i18n.text_for("group_filter_ungrouped"@) {
                Some(Seq::<char>::empty())
            } else {
                Some(name@)
            },
            final(self).selected_ids == old(self).selected_ids,
            final(self).expanded_methodology_ids == old(self).expanded_methodology_ids,
            final(self).collapsed_group_names == old(self).collapsed_group_names,
    {
        let all = t(i18n, "group_filter_all");
        let ungrouped = t(i18n, "group_filter_ungrouped");
        if str_is(name, all.as_str()) {
            self.selected_group = None;
        } else if str_is(name, ungrouped.as_str()) {
            self.selected_group = Some(String::new());
        } else {
            self.selected_group = Some(string_from(name));
        }
    }

    /// After group `name` is deleted, stops showing only that group.
    pub fn forget_deleted_group(&mut self, name: &str)
        ensures
            final(self).selected_group.deep_view() == match old(self).selected_group {
                Some(g) => if g@ == name@ {
                    None
                } else {
                    Some(g@)
                },
                None => None,
            },
            final(self).selected_ids == old(self).selected_ids,
            final(self).expanded_methodology_ids == old(self).expanded_methodology_ids,
            final(self).collapsed_group_names == old(self).collapsed_group_names,
    {
        let clear = match &self.selected_group {
            Some(g) => str_is(g.as_str(), name),
            None => false,
        };
        if clear {
            self.selected_group = None;
        }
    }
}

// ---------------------------------------------------------------------------
// Laws
// ---------------------------------------------------------------------------

/// Toggling a run in a selection that lists each run once flips whether that
/// run is selected, leaves every other run as it was, and still lists each run
/// once.
pub proof fn lemma_toggle_flips_only_that_run(s: Seq<i64>, id: i64)
    requires
        no_dups(s),
    ensures
        no_dups(toggled(s, id)),
        toggled(s, id).contains(id) == !s.contains(id),
        forall|x: i64| x != id ==> (toggled(s, id).contains(x) == s.contains(x)),
{
    let t = toggled(s, id);
    if s.contains(id) {
        let k = first_pos(s, id);
        assert(0 <= k < s.len() && s[k] == id) by {
            let w = choose|w: int| 0 <= w < s.len() && s[w] == id;
            lemma_first_pos_exists(s, id, w);
        }
        assert forall|a: int, b: int| 0 <= a < b < t.len() implies t[a] != t[b] by {
            let a2 = if a < k { a } else { a + 1 };
            let b2 = if b < k { b } else { b + 1 };
            assert(t[a] == s[a2] && t[b] == s[b2]);
        }
        assert(!t.contains(id)) by {
            if t.contains(id) {
                let m = choose|m: int| 0 <= m < t.len() && t[m] == id;
                let m2 = if m < k { m } else { m + 1 };
                assert(s[m2] == id && m2 != k);
            }
        }
        assert forall|x: i64| x != id implies (t.contains(x) == s.contains(x)) by {
            if t.contains(x) {
                let m = choose|m: int| 0 <= m < t.len() && t[m] == x;
                let m2 = if m < k { m } else { m + 1 };
                assert(s[m2] == x);
            }
            if s.contains(x) {
                let m = choose|m: int| 0 <= m < s.len() && s[m] == x;
                assert(m != k);
                if m < k {
                    assert(t[m] == x);
                } else {
                    assert(t[m - 1] == x);
                }
            }
        }
    } else {
        assert(t[t.len() - 1] == id);
        assert forall|x: i64| x != id implies (t.contains(x) == s.contains(x)) by {
            if t.contains(x) {
                let m = choose|m: int| 0 <= m < t.len() && t[m] == x;
                assert(m < s.len() && s[m] == x);
            }
            if s.contains(x) {
                let m = choose|m: int| 0 <= m < s.len() && s[m] == x;
                assert(t[m] == x);
            }
        }
    }
}

proof fn lemma_first_pos_exists(s: Seq<i64>, id: i64, w: int)
    requires
        0 <= w < s.len(),
        s[w] == id,
    ensures
        0 <= first_pos(s, id) < s.len(),
        s[first_pos(s, id)] == id,
        forall|j: int| 0 <= j < first_pos(s, id) ==> s[j] != id,
    decreases w,
{
    if exists|v: int| 0 <= v < w && s[v] == id {
        let v = choose|v: int| 0 <= v < w && s[v] == id;
        lemma_first_pos_exists(s, id, v);
    } else {
        assert(0 <= w < s.len() && s[w] == id && forall|j: int| 0 <= j < w ==> s[j] != id);
    }
}

/// Toggling the same run twice gives back the same set of selected runs.
pub proof fn lemma_toggle_selection_twice(s: Seq<i64>, id: i64)
    requires
        no_dups(s),
    ensures
        toggled(toggled(s, id), id).to_set() == s.to_set(),
{
    lemma_toggle_flips_only_that_run(s, id);
    lemma_toggle_flips_only_that_run(toggled(s, id), id);
    let u = toggled(toggled(s, id), id);
    assert(u.to_set() =~= s.to_set());
}

/// Toggling the same methodology record, or the same group, twice leaves the
/// expanded records, or the collapsed groups, as they were.
pub proof fn lemma_set_toggle_twice<T>(s: Set<T>, x: T)
    ensures
        set_toggled(set_toggled(s, x), x) == s,
{
    if s.contains(x) {
        assert(s.remove(x).insert(x) =~= s);
    } else {
        assert(s.insert(x).remove(x) =~= s);
    }
}

// ---------------------------------------------------------------------------
// Rows of the history view
// ---------------------------------------------------------------------------

/// What the history view needs to know of a run returned by the query.
#[derive(Debug, Clone, Copy, PartialEq, Eq, Structural)]
pub struct HistoryEntry {
    pub id: i64,
    pub is_methodology: bool,
    /// The run belongs to a methodology record.
    pub has_parent: bool,
}

/// One row of the history view.
#[derive(Debug, Clone, Copy, PartialEq, Eq, Structural)]
pub struct HistoryRow {
    pub id: i64,
    pub selected: bool,
    pub is_methodology: bool,
    pub is_child: bool,
    pub expanded: bool,
    pub has_children: bool,
    pub child_count: usize,
    pub depth: u32,
}

/// The rows of one run: none for a run that belongs to a methodology record; a
/// methodology record followed, when expanded, by its runs one level deeper; any
/// other run alone.
pub open spec fn entry_rows(
    selected: Seq<i64>,
    expanded: Set<i64>,
    e: HistoryEntry,
    children: Seq<i64>,
) -> Seq<HistoryRow> {
    if e.has_parent {
        Seq::empty()
    } else if e.is_methodology {
        let head = HistoryRow {
            id: e.id,
            selected: selected.contains(e.id),
            is_methodology: true,
            is_child: false,
            expanded: expanded.contains(e.id),
            has_children: true,
            child_count: children.len() as usize,
            depth: 0,
        };
        if expanded.contains(e.id) {
            seq![head] + children.map_values(
                |c: i64|
                    HistoryRow {
                        id: c,
                        selected: selected.contains(c),
                        is_methodology: false,
                        is_child: true,
                        expanded: false,
                        has_children: false,
                        child_count: 0,
                        depth: 1,
                    },
            )
        } else {
            seq![head]
        }
    } else {
        seq![
            HistoryRow {
                id: e.id,
                selected: selected.contains(e.id),
                is_methodology: false,
                is_child: false,
                expanded: false,
                has_children: false,
                child_count: 0,
                depth: 0,
            },
        ]
    }
}

/// The rows of the view for the query's runs, in order; `children[i]` lists the
/// runs of `entries[i]` when it is a methodology record.
pub open spec fn view_rows(
    selected: Seq<i64>,
    expanded: Set<i64>,
    entries: Seq<HistoryEntry>,
    children: Seq<Seq<i64>>,
) -> Seq<HistoryRow>
    decreases entries.len(),
{
    if entries.len() == 0 || children.len() < entries.len() {
        Seq::empty()
    } else {
        view_rows(selected, expanded, entries.drop_last(), children.take(entries.len() - 1))
            + entry_rows(selected, expanded, entries.last(), children[entries.len() - 1])
    }
}

impl HistoryFilterState {
    fn entry_rows_exec(&self, e: HistoryEntry, children: &Vec<i64>) -> (r: Vec<HistoryRow>)
        ensures
            r@ == entry_rows(self.selected_ids@, self.expanded_methodology_ids@, e, children@),
    {
        let mut r: Vec<HistoryRow> = Vec::new();
        if e.has_parent {
            return r;
        }
        if e.is_methodology {
            let expanded = self.expanded_methodology_ids.contains(&e.id);
            r.push(
                HistoryRow {
                    id: e.id,
                    selected: self.is_selected(e.id),
                    is_methodology: true,
                    is_child: false,
                    expanded,
                    has_children: true,
                    child_count: children.len(),
                    depth: 0,
                },
            );
            if expanded {
                let ghost head = r@;
                let mut j: usize = 0;
                while j < children.len()
                    invariant
                        j <= children@.len(),
                        r@ == head + children@.take(j as int).map_values(
                            |c: i64|
                                HistoryRow {
                                    id: c,
                                    selected: self.selected_ids@.contains(c),
                                    is_methodology: false,
                                    is_child: true,
                                    expanded: false,
                                    has_children: false,
                                    child_count: 0,
                                    depth: 1,
                                },
                        ),
                    decreases children@.len() - j,
                {
                    let c = children[j];
                    r.push(
                        HistoryRow {
                            id: c,
                            selected: self.is_selected(c),
                            is_methodology: false,
                            is_child: true,
                            expanded: false,
                            has_children: false,
                            child_count: 0,
                            depth: 1,
                        },
                    );
                    assert(children@.take(j + 1) =~= children@.take(j as int).push(c));
                    j += 1;
                }
                assert(children@.take(j as int) =~= children@);
            }
            r
        } else {
            r.push(
                HistoryRow {
                    id: e.id,
                    selected: self.is_selected(e.id),
                    is_methodology: false,
                    is_child: false,
                    expanded: false,
                    has_children: false,
                    child_count: 0,
                    depth: 0,
                },
            );
            r
        }
    }

    /// The rows the history view lists for the query's runs, each run paired
    /// with the runs of its methodology record (empty for other runs).
    pub fn history_rows(&self, entries: &[HistoryEntry], children: &[Vec<i64>]) -> (r: Vec<
        HistoryRow,
    >)
        requires
            children@.len() == entries@.len(),
        ensures
            r@ == view_rows(
                self.selected_ids@,
                self.expanded_methodology_ids@,
                entries@,
                children@.map_values(|c: Vec<i64>| c@),
            ),
    {
        let ghost kids = children@.map_values(|c: Vec<i64>| c@);
        let mut r: Vec<HistoryRow> = Vec::new();
        let mut i: usize = 0;
        while i < entries.len()
            invariant
                children@.len() == entries@.len(),
                kids == children@.map_values(|c: Vec<i64>| c@),
                i <= entries@.len(),
                r@ == view_rows(
                    self.selected_ids@,
                    self.expanded_methodology_ids@,
                    entries@.take(i as int),
                    kids.take(i as int),
                ),
            decreases entries@.len() - i,
        {
            let block = self.entry_rows_exec(entries[i], &children[i]);
            let ghost before = r@;
            let mut b = block;
            r.append(&mut b);
            proof {
                let es = entries@.take(i + 1);
                let ks = kids.take(i + 1);
                assert(es.drop_last() =~= entries@.take(i as int));
                assert(ks.take(es.len() - 1) =~= kids.take(i as int));
                assert(es.last() == entries@[i as int]);
                assert(ks[es.len() - 1] == children@[i as int]@);
            }
            i += 1;
        }
        assert(entries@.take(i as int) =~= entries@);
        assert(kids.take(i as int) =~= kids);
        r
    }
}

/// What the methodology check needs to know of a selected run.
pub struct SelectedRun {
    pub is_methodology: bool,
    pub benchmark_id: String,
}

/// A methodology record can be made of the selection: two runs or more, all
/// found, none a methodology record itself, all of one benchmark.
pub open spec fn methodology_allowed(found: Seq<Option<SelectedRun>>) -> bool {
    &&& found.len() >= 2
    &&& forall|i: int| 0 <= i < found.len() ==> (#[trigger] found[i]) is Some
    &&& forall|i: int| 0 <= i < found.len() ==> !(#[trigger] found[i])->0.is_methodology
    &&& forall|i: int|
        0 <= i < found.len() ==> (#[trigger] found[i])->0.benchmark_id@ == found[0]->0.benchmark_id@
}

/// Whether a methodology record can be made of the selected runs, given what
/// was found of each of them, in selection order (`None`: not found).
pub fn can_create_methodology(found: &[Option<SelectedRun>]) -> (r: bool)
    ensures
        r == methodology_allowed(found@),
{
    if found.len() < 2 {
        return false;
    }
    let first: &str = match &found[0] {
        Some(run) => run.benchmark_id.as_str(),
        None => { return false; },
    };
    let mut i: usize = 0;
    while i < found.len()
        invariant
            found@.len() >= 2,
            found@[0] is Some,
            first@ == found@[0]->0.benchmark_id@,
            i <= found@.len(),
            forall|j: int| 0 <= j < i ==> (#[trigger] found@[j]) is Some,
            forall|j: int| 0 <= j < i ==> !(#[trigger] found@[j])->0.is_methodology,
            forall|j: int|
                0 <= j < i ==> (#[trigger] found@[j])->0.benchmark_id@ == found@[0]->0.benchmark_id@,
        decreases found@.len() - i,
    {
        match &found[i] {
            Some(run) => {
                if run.is_methodology || !str_is(run.benchmark_id.as_str(), first) {
                    return false;
                }
            },
            None => { return false; },
        }
        i += 1;
    }
    true
}

/// A run shown as part of a methodology record is one of the runs of an
/// expanded methodology record in the query's results; every other row is a run
/// of the query that belongs to no methodology record.
pub proof fn lemma_rows_come_from_entries(
    selected: Seq<i64>,
    expanded: Set<i64>,
    entries: Seq<HistoryEntry>,
    children: Seq<Seq<i64>>,
)
    requires
        children.len() == entries.len(),
    ensures
        forall|k: int|
            0 <= k < view_rows(selected, expanded, entries, children).len() ==> {
                let row = #[trigger] view_rows(selected, expanded, entries, children)[k];
                if row.is_child {
                    exists|i: int|
                        0 <= i < entries.len() && !entries[i].has_parent && entries[i].is_methodology
                            && expanded.contains(entries[i].id) && children[i].contains(row.id)
                } else {
                    exists|i: int| 0 <= i < entries.len() && !entries[i].has_parent && entries[i].id == row.id
                }
            },
    decreases entries.len(),
{
    if entries.len() > 0 {
        let n = entries.len();
        let prev = entries.drop_last();
        let pk = children.take(n - 1);
        lemma_rows_come_from_entries(selected, expanded, prev, pk);
        let rows = view_rows(selected, expanded, entries, children);
        let before = view_rows(selected, expanded, prev, pk);
        let block = entry_rows(selected, expanded, entries.last(), children[n - 1]);
        assert(rows == before + block);
        assert forall|k: int| 0 <= k < rows.len() implies {
            let row = #[trigger] rows[k];
            if row.is_child {
                exists|i: int|
                    0 <= i < entries.len() && !entries[i].has_parent && entries[i].is_methodology
                        && expanded.contains(entries[i].id) && children[i].contains(row.id)
            } else {
                exists|i: int| 0 <= i < entries.len() && !entries[i].has_parent && entries[i].id == row.id
            }
        } by {
            let row = rows[k];
            if k < before.len() {
                assert(row == before[k]);
                if row.is_child {
                    let i = choose|i: int|
                        0 <= i < prev.len() && !prev[i].has_parent && prev[i].is_methodology
                            && expanded.contains(prev[i].id) && pk[i].contains(row.id);
                    assert(entries[i] == prev[i] && children[i] == pk[i]);
                } else {
                    let i = choose|i: int| 0 <= i < prev.len() && !prev[i].has_parent && prev[i].id == row.id;
                    assert(entries[i] == prev[i]);
                }
            } else {
                let m = k - before.len();
                assert(row == block[m]);
                let e = entries.last();
                assert(e == entries[n - 1]);
                if m > 0 {
                    assert(children[n - 1][m - 1] == row.id);
                    assert(children[n - 1].contains(row.id));
                }
            }
        }
    }
}

} // verus!
