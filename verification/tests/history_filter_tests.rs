use benchhub::history_filter::{
    can_create_methodology, HistoryEntry, HistoryFilterState, HistoryRow, SelectedRun,
};
use benchhub::i18n::{set_language, I18n};
use benchhub::models::HistorySortOrder;

fn dictionaries() -> I18n {
    I18n::load().expect("the dictionaries are tables of strings")
}

#[test]
fn filter_state_starts_with_all_choices() {
    let i18n = dictionaries();
    let f = HistoryFilterState::new(&i18n);
    assert_eq!(f.search, "");
    assert_eq!(f.category, "Kategori: Tümü");
    assert_eq!(f.gpu_mode, "GPU: Tümü");
    assert_eq!(f.status, "Durum: Tümü");
    assert_eq!(f.sort_order, HistorySortOrder::DateDesc);
    assert!(f.selected_ids.is_empty());
    assert!(f.expanded_methodology_ids.is_empty());
    assert_eq!(f.selected_group, None);
    assert!(f.collapsed_group_names.is_empty());
}

#[test]
fn selection_toggles() {
    let i18n = dictionaries();
    let mut f = HistoryFilterState::new(&i18n);
    f.toggle_selection(5);
    f.toggle_selection(7);
    f.toggle_selection(9);
    assert_eq!(f.selected_ids, vec![5, 7, 9]);
    assert!(f.is_selected(7));
    f.toggle_selection(7);
    assert_eq!(f.selected_ids, vec![5, 9]);
    assert!(!f.is_selected(7));
    f.toggle_selection(7);
    assert_eq!(f.selected_ids, vec![5, 9, 7]);
    f.clear_selection();
    assert!(f.selected_ids.is_empty());
}

#[test]
fn expanded_records_and_collapsed_groups_toggle() {
    let i18n = dictionaries();
    let mut f = HistoryFilterState::new(&i18n);
    f.toggle_methodology_expand(3);
    assert!(f.expanded_methodology_ids.contains(&3));
    f.toggle_methodology_expand(3);
    assert!(!f.expanded_methodology_ids.contains(&3));

    f.toggle_group_collapsed("grup-01");
    f.toggle_group_collapsed("grup-02");
    assert_eq!(f.collapsed_group_names, vec!["grup-01", "grup-02"]);
    f.toggle_group_collapsed("grup-01");
    assert_eq!(f.collapsed_group_names, vec!["grup-02"]);
    f.expand_group("grup-02");
    assert!(f.collapsed_group_names.is_empty());
    f.expand_group("grup-03");
    assert!(f.collapsed_group_names.is_empty());
}

#[test]
fn group_filter_choices() {
    let mut i18n = dictionaries();
    let mut f = HistoryFilterState::new(&i18n);
    f.select_group_filter(&i18n, "grup-01");
    assert_eq!(f.selected_group, Some("grup-01".to_string()));
    f.forget_deleted_group("grup-02");
    assert_eq!(f.selected_group, Some("grup-01".to_string()));
    f.forget_deleted_group("grup-01");
    assert_eq!(f.selected_group, None);
    f.select_group_filter(&i18n, "Grupsuz");
    assert_eq!(f.selected_group, Some(String::new()));
    f.select_group_filter(&i18n, "Tüm Gruplar");
    assert_eq!(f.selected_group, None);
    set_language(&mut i18n, "en");
    f.select_group_filter(&i18n, "Ungrouped");
    assert_eq!(f.selected_group, Some(String::new()));
    f.set_sort_order("En Eski");
    assert_eq!(f.sort_order, HistorySortOrder::DateAsc);
}

fn entry(id: i64, is_methodology: bool, has_parent: bool) -> HistoryEntry {
    HistoryEntry { id, is_methodology, has_parent }
}

#[test]
fn rows_of_the_history_view() {
    let i18n = dictionaries();
    let mut f = HistoryFilterState::new(&i18n);
    f.toggle_selection(11);
    f.toggle_selection(1);
    let entries = [entry(1, false, false), entry(10, true, false), entry(11, false, true)];
    let children = vec![vec![], vec![11, 12], vec![]];

    let rows = f.history_rows(&entries, &children);
    assert_eq!(rows.len(), 2);
    assert_eq!(
        rows[0],
        HistoryRow {
            id: 1,
            selected: true,
            is_methodology: false,
            is_child: false,
            expanded: false,
            has_children: false,
            child_count: 0,
            depth: 0,
        }
    );
    assert_eq!(
        rows[1],
        HistoryRow {
            id: 10,
            selected: false,
            is_methodology: true,
            is_child: false,
            expanded: false,
            has_children: true,
            child_count: 2,
            depth: 0,
        }
    );

    f.toggle_methodology_expand(10);
    let rows = f.history_rows(&entries, &children);
    assert_eq!(rows.len(), 4);
    assert!(rows[1].expanded);
    assert_eq!(rows[2].id, 11);
    assert!(rows[2].is_child && rows[2].selected);
    assert_eq!(rows[2].depth, 1);
    assert_eq!(rows[3].id, 12);
    assert!(!rows[3].selected);
}

fn sel(m: bool, id: &str) -> Option<SelectedRun> {
    Some(SelectedRun { is_methodology: m, benchmark_id: id.to_string() })
}

#[test]
fn methodology_can_be_made_of_matching_runs() {
    assert!(can_create_methodology(&[sel(false, "7zip"), sel(false, "7zip")]));
    assert!(!can_create_methodology(&[sel(false, "7zip")]));
    assert!(!can_create_methodology(&[sel(false, "7zip"), sel(false, "cray")]));
    assert!(!can_create_methodology(&[sel(false, "7zip"), sel(true, "7zip")]));
    assert!(!can_create_methodology(&[sel(false, "7zip"), None]));
    assert!(!can_create_methodology(&[None, sel(false, "7zip"), sel(false, "7zip")]));
}
