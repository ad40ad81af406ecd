use tm_core::home::{home_from_setting, is_allowed_debug_override, TmHome, DEFAULT_TM_HOME};

#[test]
fn debug_override_must_be_absolute_normalized_and_inside_tm_home() {
    let allowed = format!("{}\\dist\\test-runs", DEFAULT_TM_HOME);
    assert!(is_allowed_debug_override(&allowed, true));
    assert!(!is_allowed_debug_override("relative-test-home", true));
    assert!(!is_allowed_debug_override(r"C:\temp\tm-test", true));
    let outside = format!("{}\\..\\outside", DEFAULT_TM_HOME);
    assert!(!is_allowed_debug_override(&outside, true));
}

#[test]
fn windows_debug_override_is_rejected_on_other_platforms() {
    assert!(!is_allowed_debug_override(DEFAULT_TM_HOME, false));
    assert!(!is_allowed_debug_override("relative-test-home", false));
}

#[test]
fn debug_override_accepts_the_home_itself_and_forward_slashes() {
    assert!(is_allowed_debug_override(DEFAULT_TM_HOME, true));
    assert!(is_allowed_debug_override("c:/Users/tkfk0/Desktop/codex/TM/dist", true));
    assert!(!is_allowed_debug_override("D:\\Users\\tkfk0\\Desktop\\codex\\TM", true));
    assert!(!is_allowed_debug_override("C:\\Users\\tkfk0\\Desktop\\codex\\TMX", true));
}

#[test]
fn home_layout_names_every_directory_under_the_root() {
    let home = TmHome::new("/srv/tm");
    assert_eq!(home.root(), "/srv/tm");
    assert_eq!(home.app_dir(), "/srv/tm/app");
    assert_eq!(home.data_dir(), "/srv/tm/data");
    assert_eq!(home.database_path(), "/srv/tm/data/tm.sqlite3");
    assert_eq!(home.attachments_dir(), "/srv/tm/data/attachments");
    assert_eq!(home.logs_dir(), "/srv/tm/data/logs");
    assert_eq!(home.backups_dir(), "/srv/tm/backups");
    assert_eq!(home.database_backups_dir(), "/srv/tm/backups/database");
    assert_eq!(home.source_backups_dir(), "/srv/tm/backups/source");
    assert_eq!(home.exports_dir(), "/srv/tm/exports");
    assert_eq!(home.dist_dir(), "/srv/tm/dist");
}

#[test]
fn a_release_build_or_a_missing_setting_uses_the_production_root() {
    let allowed = format!("{}\\dist\\test-runs", DEFAULT_TM_HOME);
    assert_eq!(home_from_setting(None, true).root(), DEFAULT_TM_HOME);
    assert_eq!(home_from_setting(Some(&allowed), false).root(), DEFAULT_TM_HOME);
    assert_eq!(home_from_setting(Some(""), true).root(), DEFAULT_TM_HOME);
    assert_eq!(home_from_setting(Some("relative-test-home"), true).root(), DEFAULT_TM_HOME);
}

#[test]
fn the_database_lies_in_the_data_directory() {
    let home = TmHome::new("/srv/tm");
    assert_eq!(home.data_dir(), "/srv/tm/data");
    assert_eq!(home.database_path(), format!("{}/tm.sqlite3", home.data_dir()));
    let trailing = TmHome::new("/srv/tm/");
    assert_eq!(trailing.data_dir(), "/srv/tm/data");
}
