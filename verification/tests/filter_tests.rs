use app_library::entry::{duplicate_flags, AppSource, DesktopEntryData};
use app_library::group::{AppGroup, AppLibraryConfig, FilterType};

fn entry(id: &str, name: &str, categories: &[&str]) -> DesktopEntryData {
    DesktopEntryData {
        id: id.to_string(),
        name: name.to_string(),
        exec_line: None,
        icon: None,
        categories: categories.iter().map(|c| c.to_string()).collect(),
        path: None,
        actions: Vec::new(),
    }
}

fn group(name: &str, categories: &[&str]) -> AppGroup {
    AppGroup {
        name: name.to_string(),
        icon: "folder-symbolic".to_string(),
        filter: FilterType::Categories {
            categories: categories.iter().map(|c| c.to_string()).collect(),
            included: Vec::new(),
            exclude: Vec::new(),
        },
    }
}

fn office_config() -> AppLibraryConfig {
    AppLibraryConfig { groups: vec![group("Games", &["Game"]), group("Office", &["Office"])] }
}

#[test]
fn category_group_includes_matching_entry() {
    let config = office_config();
    let entries = vec![entry("org.example.Text", "Text", &["Office", "TextEditor"])];
    let shown = config.filtered(2, "", &entries);
    assert_eq!(shown.len(), 1);
    assert_eq!(shown[0].id, "org.example.Text");
}

#[test]
fn remove_entry_excludes_from_group_and_from_search() {
    let mut config = office_config();
    let entries = vec![entry("org.example.Text", "Text", &["Office", "TextEditor"])];
    assert_eq!(config.filtered(2, "", &entries).len(), 1);
    config.remove_entry(2, "org.example.Text");
    assert_eq!(config.filtered(2, "", &entries).len(), 0);
    // search narrows within the group; it does not resurrect an
    // excluded entry
    assert_eq!(config.filtered(2, "Office", &entries).len(), 0);
}

#[test]
fn add_then_remove_leaves_entry_in_exclude() {
    let mut config = office_config();
    config.add_entry(1, "org.example.Text");
    config.remove_entry(1, "org.example.Text");
    match &config.groups[0].filter {
        FilterType::Categories { included, exclude, .. } => {
            assert!(exclude.iter().any(|x| x == "org.example.Text"));
            assert!(!included.iter().any(|x| x == "org.example.Text"));
        }
        FilterType::NoFilter => panic!("user group lost its categories filter"),
    }
}

#[test]
fn home_shows_only_unclaimed_entries() {
    let config = office_config();
    let entries = vec![
        entry("org.example.Text", "Writer", &["Office"]),
        entry("org.example.Player", "Player", &["AudioVideo"]),
    ];
    let shown = config.filtered(0, "", &entries);
    assert_eq!(shown.len(), 1);
    assert_eq!(shown[0].id, "org.example.Player");
}

#[test]
fn filtered_is_repeatable() {
    let config = office_config();
    let entries = vec![
        entry("b", "beta", &[]),
        entry("a", "Alpha", &[]),
        entry("c", "Chi", &["Office"]),
    ];
    let first: Vec<String> = config.filtered(0, "", &entries).iter().map(|e| e.id.clone()).collect();
    let second: Vec<String> =
        config.filtered(0, "", &entries).iter().map(|e| e.id.clone()).collect();
    assert_eq!(first, second);
}

#[test]
fn results_are_ordered_case_insensitively() {
    let config = AppLibraryConfig { groups: Vec::new() };
    let entries = vec![
        entry("1", "banana", &[]),
        entry("2", "Apple", &[]),
        entry("3", "Cherry", &[]),
    ];
    let shown = config.filtered(0, "", &entries);
    let names: Vec<String> = shown.iter().map(|e| e.name.clone()).collect();
    assert_eq!(names, vec!["Apple".to_string(), "banana".to_string(), "Cherry".to_string()]);
}

#[test]
fn search_is_case_insensitive_substring_on_names() {
    let config = office_config();
    let entries = vec![
        entry("w", "LibreOffice Writer", &[]),
        entry("p", "Music Player", &[]),
    ];
    let shown = config.filtered(0, "OFFICE", &entries);
    assert_eq!(shown.len(), 1);
    assert_eq!(shown[0].id, "w");
}

#[test]
fn search_matches_categories_too() {
    let config = office_config();
    let entries = vec![entry("t", "Writer", &["WordProcessor"])];
    let shown = config.filtered(0, "wordproc", &entries);
    assert_eq!(shown.len(), 1);
}

#[test]
fn search_in_user_group_narrows_only() {
    let config = office_config();
    let entries = vec![
        entry("w", "Writer", &["Office"]),
        entry("m", "Office Tour", &["AudioVideo"]),
    ];
    // "m" has a matching name but is not in the group, so search must
    // not widen the group to it
    let shown = config.filtered(2, "office", &entries);
    assert_eq!(shown.len(), 1);
    assert_eq!(shown[0].id, "w");
}

#[test]
fn add_entry_to_home_excludes_everywhere_else() {
    let mut config = office_config();
    let entries = vec![entry("w", "Writer", &["Office", "Game"])];
    assert_eq!(config.filtered(1, "", &entries).len(), 1);
    assert_eq!(config.filtered(2, "", &entries).len(), 1);
    assert_eq!(config.filtered(0, "", &entries).len(), 0);
    config.add_entry(0, "w");
    assert_eq!(config.filtered(1, "", &entries).len(), 0);
    assert_eq!(config.filtered(2, "", &entries).len(), 0);
    assert_eq!(config.filtered(0, "", &entries).len(), 1);
}

#[test]
fn included_entry_shows_without_matching_categories() {
    let mut config = office_config();
    let entries = vec![entry("calc", "Calculator", &["Utility"])];
    assert_eq!(config.filtered(2, "", &entries).len(), 0);
    config.add_entry(2, "calc");
    assert_eq!(config.filtered(2, "", &entries).len(), 1);
}

#[test]
fn out_of_range_mutations_are_no_ops() {
    let mut config = office_config();
    config.remove_entry(9, "x");
    config.add_entry(9, "x");
    config.remove(0);
    config.remove(9);
    config.set_name(0, "renamed".to_string());
    config.set_name(9, "renamed".to_string());
    assert_eq!(config.groups.len(), 2);
    assert_eq!(config.groups[0].name, "Games");
    assert_eq!(config.groups[1].name, "Office");
}

#[test]
fn structural_group_edits() {
    let mut config = AppLibraryConfig::new();
    config.add("Work".to_string());
    assert_eq!(config.groups.len(), 1);
    assert_eq!(config.groups[0].name, "Work");
    config.set_name(1, "Projects".to_string());
    assert_eq!(config.groups[0].name, "Projects");
    let combined = config.groups();
    assert_eq!(combined.len(), 2);
    assert_eq!(combined[0].name, "cosmic-library-home");
    assert_eq!(combined[1].name, "Projects");
    config.remove(1);
    assert_eq!(config.groups.len(), 0);
}

#[test]
fn empty_group_index_falls_back_to_home_view() {
    let config = office_config();
    let entries = vec![entry("p", "Player", &["AudioVideo"])];
    let at_home = config.filtered(0, "", &entries);
    let beyond = config.filtered(17, "", &entries);
    assert_eq!(at_home.len(), 1);
    assert_eq!(beyond.len(), 1);
}

#[test]
fn duplicate_names_are_flagged() {
    let entries = vec![
        entry("files.a", "Files", &[]),
        entry("files.b", "files ", &[]),
        entry("term", "Terminal", &[]),
    ];
    let flags = duplicate_flags(&entries);
    assert_eq!(flags, vec![true, true, false]);
}

#[test]
fn duplicate_ids_are_flagged() {
    let entries = vec![
        entry("org.x.App", "Alpha", &[]),
        entry("org.x.App", "Beta", &[]),
    ];
    let flags = duplicate_flags(&entries);
    assert_eq!(flags, vec![true, true]);
}

#[test]
fn distinct_entries_are_not_flagged() {
    let entries = vec![entry("a", "Alpha", &[]), entry("b", "Beta", &[])];
    assert_eq!(duplicate_flags(&entries), vec![false, false]);
}

#[test]
fn groups_sort_case_insensitively_and_stably() {
    let groups = vec![
        group("beta", &[]),
        group("Alpha", &[]),
        group("ALPHA", &[]),
        group("Chi", &[]),
    ];
    let sorted = app_library::group::sort_groups(groups);
    let names: Vec<String> = sorted.iter().map(|g| g.name.clone()).collect();
    assert_eq!(
        names,
        vec![
            "Alpha".to_string(),
            "ALPHA".to_string(),
            "beta".to_string(),
            "Chi".to_string()
        ]
    );
}

#[test]
fn entries_with_equal_names_keep_their_order() {
    let config = AppLibraryConfig::new();
    let entries = vec![
        entry("second", "Files", &[]),
        entry("first", "files", &[]),
    ];
    let shown = config.filtered(0, "", &entries);
    let ids: Vec<String> = shown.iter().map(|e| e.id.clone()).collect();
    assert_eq!(ids, vec!["second".to_string(), "first".to_string()]);
}

#[test]
fn provenance_classification() {
    assert_eq!(AppSource::classify("/usr/share/applications/x.desktop"), AppSource::System);
    assert_eq!(
        AppSource::classify("/home/me/.local/share/applications/y.desktop"),
        AppSource::Local
    );
    assert_eq!(
        AppSource::classify("/var/lib/flatpak/exports/share/applications/z.desktop"),
        AppSource::Flatpak
    );
    assert_eq!(AppSource::classify("/var/lib/snapd/desktop/applications/s.desktop"), AppSource::Snap);
    assert_eq!(AppSource::classify("/nix/store/abc/share/applications/n.desktop"), AppSource::Nix);
    assert_eq!(AppSource::classify("/opt/things/t.desktop"), AppSource::Other);
}
