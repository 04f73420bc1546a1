use dsh_launcher::config::LauncherConfig;
use dsh_launcher::download::{
    accepts_choice, confirm_question, download_directory, handle_download_request, plan_download,
    safe_download_file_name, save_step, unique_download_path, DownloadPlan, NameSearch, SaveAction,
    SaveEvent, NUMBERED_NAMES,
};
use std::path::PathBuf;

#[test]
fn names_are_made_safe() {
    assert_eq!(safe_download_file_name("report.pdf"), "report.pdf");
    assert_eq!(safe_download_file_name("a<b>c:d\\e\"f/g|h?i*j"), "a_b_c_d_e_f_g_h_i_j");
    assert_eq!(safe_download_file_name("../../etc/passwd"), "_.._etc_passwd");
    assert_eq!(safe_download_file_name("  .hidden.  "), "hidden");
    assert_eq!(safe_download_file_name("tab\there"), "tab_here");
    assert_eq!(safe_download_file_name("图 片.png"), "图 片.png");
    for nothing in ["", " ", "...", " .. "] {
        assert_eq!(safe_download_file_name(nothing), "download");
    }
    // The white space is taken off before the dots are.
    assert_eq!(safe_download_file_name("a ."), "a ");
}

#[test]
fn safe_names_lead_nowhere() {
    for name in ["..", "/etc", "C:\\x", "a/..", "\u{0}", ". ."] {
        let safe = safe_download_file_name(name);
        assert!(!safe.is_empty());
        assert!(!safe.contains(['/', '\\', ':', '\u{0}']));
        assert!(!safe.starts_with('.') && !safe.ends_with('.'));
    }
}

fn tried(name: &str, count: usize) -> Vec<String> {
    let mut search = NameSearch::new(name);
    let mut seen = vec![search.name()];
    for _ in 0..count {
        assert_eq!(unique_download_path(&mut search, true, 0), None);
        seen.push(search.name());
    }
    seen
}

#[test]
fn taken_names_are_numbered() {
    assert_eq!(tried("a.tar.gz", 2), vec!["a.tar.gz", "a.tar (1).gz", "a.tar (2).gz"]);
    assert_eq!(tried("notes", 1), vec!["notes", "notes (1)"]);
    assert_eq!(tried(".profile", 1), vec![".profile", ".profile (1)"]);
    assert_eq!(tried("end.", 1), vec!["end.", "end (1)."]);
}

#[test]
fn the_first_free_name_is_used() {
    let mut search = NameSearch::new("a.txt");
    assert_eq!(unique_download_path(&mut search, false, 0), Some("a.txt".to_string()));
    let mut search = NameSearch::new("a.txt");
    assert_eq!(unique_download_path(&mut search, true, 0), None);
    assert_eq!(unique_download_path(&mut search, false, 0), Some("a (1).txt".to_string()));
}

#[test]
fn the_time_stands_in_where_every_name_is_taken() {
    let mut search = NameSearch::new("a.txt");
    let mut asked = 0u32;
    let last = loop {
        asked += 1;
        if let Some(name) = unique_download_path(&mut search, true, 1700000000) {
            break name;
        }
    };
    assert_eq!(asked, NUMBERED_NAMES);
    assert_eq!(search.name(), "a (99999).txt");
    assert_eq!(last, "a-1700000000.txt");
}

#[test]
fn a_missing_stem_is_replaced() {
    let mut search = NameSearch::from_parts("..", None, Some("x".to_string()));
    assert_eq!(search.name(), "..");
    assert_eq!(unique_download_path(&mut search, true, 0), None);
    assert_eq!(search.name(), "download (1).x");
}

#[test]
fn downloads_go_to_an_absolute_directory_of_the_settings() {
    let mut config = LauncherConfig::for_directories(None, None);
    config.download_directory = " /srv/files ".to_string();
    let other = PathBuf::from("/other");
    assert_eq!(download_directory(&config, true, other.clone()), PathBuf::from("/srv/files"));
    assert_eq!(download_directory(&config, false, other.clone()), other);
}

#[test]
fn plans_for_a_download() {
    let mut config = LauncherConfig::for_directories(None, None);
    config.download_ask = true;
    let directory = PathBuf::from("/d");
    match plan_download(&config, Some("a?b".to_string()), directory.clone()) {
        DownloadPlan::Save { directory, name, ask } => {
            assert_eq!(directory, PathBuf::from("/d"));
            assert_eq!(name, "a_b");
            assert!(ask);
        }
        DownloadPlan::Choose { .. } => panic!("the user was not to choose"),
    }
    config.download_choose_location = true;
    match plan_download(&config, None, directory) {
        DownloadPlan::Choose { name, .. } => assert_eq!(name, "download"),
        DownloadPlan::Save { .. } => panic!("the user was to choose"),
    }
}

fn place_of(plan: DownloadPlan) -> PathBuf {
    match plan {
        DownloadPlan::Save { directory, .. } => directory,
        DownloadPlan::Choose { directory, .. } => directory,
    }
}

#[test]
fn a_request_falls_back_where_the_directory_is_not_absolute() {
    let mut config = LauncherConfig::for_directories(None, None);
    let fallback = PathBuf::from("/fallback");
    config.download_directory = " /srv/files ".to_string();
    let plan = handle_download_request(&config, Some("x".to_string()), fallback.clone());
    assert_eq!(place_of(plan), PathBuf::from("/srv/files"));
    for relative in ["relative", "a/b", "", "./x", "a:b"] {
        config.download_directory = relative.to_string();
        let plan = handle_download_request(&config, Some("x".to_string()), fallback.clone());
        assert_eq!(place_of(plan), fallback);
    }
    config.download_choose_location = true;
    let plan = handle_download_request(&config, None, fallback.clone());
    assert_eq!(place_of(plan), fallback);
}

#[test]
fn steps_of_a_download() {
    let made = SaveEvent::DirectoryMade { made: true };
    assert_eq!(save_step(true, made), SaveAction::Ask);
    assert_eq!(save_step(false, made), SaveAction::FindName);
    let failed = SaveEvent::DirectoryMade { made: false };
    assert_eq!(save_step(false, failed), SaveAction::Refuse);
    assert_eq!(save_step(true, SaveEvent::Answered { agreed: true }), SaveAction::FindName);
    assert_eq!(save_step(true, SaveEvent::Answered { agreed: false }), SaveAction::Refuse);
    assert_eq!(confirm_question("a.txt"), "是否下载“a.txt”？");
    assert!(accepts_choice(Some(true)));
    assert!(!accepts_choice(Some(false)));
    assert!(!accepts_choice(None));
}
