use pyelevate::app::{App, AppMode, SortBy};
use pyelevate::models::VersionStatus;
use pyelevate::parser::parse_requirements_content;

fn sample_app() -> App {
    let content = "alpha==1.0.0\nbeta==1.0.0\ngamma==1.0.0\n";
    let file = parse_requirements_content("requirements.txt", content);
    let mut app = App::new("requirements.txt".to_string());
    app.set_packages(file.packages);
    app
}

#[test]
fn fresh_app_state() {
    let app = App::new("requirements.txt".to_string());
    assert_eq!(app.mode, AppMode::Loading);
    assert_eq!(app.sort_by, SortBy::Status);
    assert!(app.packages.is_empty());
    assert_eq!(app.count_selected(), 0);
    assert!(!app.has_upgradable_packages());
}

#[test]
fn set_packages_builds_view_and_stats() {
    let app = sample_app();
    assert_eq!(app.packages.len(), 3);
    assert_eq!(app.filtered_packages, vec![0, 1, 2]);
    assert_eq!(app.stats.total, 3);
    assert_eq!(app.selected_index, 0);
}

#[test]
fn search_filters_by_fuzzy_match() {
    let mut app = sample_app();
    app.search_query = "gam".to_string();
    app.refresh_filtered_packages();
    assert_eq!(app.filtered_packages.len(), 1);
    assert_eq!(app.packages[app.filtered_packages[0]].name, "gamma");
    app.search_query = "a".to_string();
    app.refresh_filtered_packages();
    // Every sample name contains an "a".
    assert_eq!(app.filtered_packages.len(), 3);
    app.search_query = "zzz".to_string();
    app.refresh_filtered_packages();
    assert!(app.filtered_packages.is_empty());
}

#[test]
fn navigation_stays_in_bounds() {
    let mut app = sample_app();
    app.move_up();
    assert_eq!(app.selected_index, 0);
    app.move_down();
    assert_eq!(app.selected_index, 1);
    app.move_down();
    app.move_down();
    assert_eq!(app.selected_index, 2);
    app.page_down();
    assert_eq!(app.selected_index, 2);
    app.page_up();
    assert_eq!(app.selected_index, 0);
    app.end();
    assert_eq!(app.selected_index, 2);
    app.home();
    assert_eq!(app.selected_index, 0);
}

#[test]
fn toggle_and_bulk_selection() {
    let mut app = sample_app();
    app.toggle_selected();
    assert_eq!(app.count_selected(), 1);
    assert!(app.packages[0].selected);
    app.toggle_selected();
    assert_eq!(app.count_selected(), 0);

    // Bulk selection only takes resolved records.
    app.select_all();
    assert_eq!(app.count_selected(), 0);
    app.packages[1].latest_version = Some("2.0.0".to_string());
    app.select_all();
    assert_eq!(app.count_selected(), 1);
    assert!(app.packages[1].selected);

    app.deselect_all();
    assert_eq!(app.count_selected(), 0);

    app.packages[0].status = VersionStatus::Major;
    app.packages[2].status = VersionStatus::Patch;
    app.select_all_major();
    assert_eq!(app.count_selected(), 1);
    assert!(app.packages[0].selected);
    app.select_all_patch();
    assert_eq!(app.count_selected(), 2);
    assert!(app.packages[2].selected);
    app.select_all_minor();
    assert_eq!(app.count_selected(), 2);
}

#[test]
fn sorting_by_each_key() {
    let mut app = sample_app();
    app.packages[0].status = VersionStatus::UpToDate;
    app.packages[1].status = VersionStatus::Major;
    app.packages[2].status = VersionStatus::Vulnerable;
    app.sort_by = SortBy::Status;
    app.apply_sort();
    let statuses: Vec<VersionStatus> = app.packages.iter().map(|p| p.status).collect();
    assert_eq!(
        statuses,
        vec![VersionStatus::Vulnerable, VersionStatus::Major, VersionStatus::UpToDate]
    );

    app.sort_by = SortBy::Name;
    app.apply_sort();
    let names: Vec<&str> = app.packages.iter().map(|p| p.name.as_str()).collect();
    assert_eq!(names, vec!["alpha", "beta", "gamma"]);

    app.packages[0].popularity = None;
    app.packages[1].popularity = Some(pyelevate::models::PopularityData {
        downloads_last_month: 400,
        downloads_trend: Vec::new(),
        weekly_downloads: 100,
        package_rank: None,
    });
    app.sort_by = SortBy::Popularity;
    app.apply_sort();
    assert_eq!(app.packages[0].name, "beta");
}

#[test]
fn cursor_lookup_and_messages() {
    let mut app = sample_app();
    let under_cursor = app.get_selected_package_ref().unwrap();
    assert_eq!(under_cursor.name, "alpha");
    app.set_error("pick something first".to_string());
    assert_eq!(app.error_message.as_deref(), Some("pick something first"));
    app.set_success("done".to_string());
    app.clear_messages();
    assert!(app.error_message.is_none());
    assert!(app.success_message.is_none());

    app.filtered_packages.clear();
    assert!(app.get_selected_package_ref().is_none());
}

#[test]
fn upgradable_detection() {
    let mut app = sample_app();
    assert!(!app.has_upgradable_packages());
    app.packages[2].latest_version = Some("1.0.1".to_string());
    assert!(app.has_upgradable_packages());
}
