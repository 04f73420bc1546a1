use dsh_launcher::shell_path::{
    adopt_login_shell_path, equal_paths, known_path_dirs, login_shell_command,
    merge_existing_path_dirs, newest_first, version_key, Candidate, PathDir,
};
use std::path::Path;

fn name(text: &str) -> Option<String> {
    Some(text.to_string())
}

fn candidate(path: &str, exists: bool) -> Candidate {
    Candidate { path: path.to_string(), exists }
}

#[test]
fn the_login_shell_is_asked_for_its_path() {
    let command = login_shell_command(None);
    assert_eq!(command.program, "/bin/zsh");
    assert_eq!(command.args, vec!["-lc", "printf %s \"$PATH\""]);
    assert_eq!(login_shell_command(name("/bin/bash")).program, "/bin/bash");
    assert_eq!(adopt_login_shell_path(true, " /usr/bin:/bin\n"), name("/usr/bin:/bin"));
    assert_eq!(adopt_login_shell_path(true, " \n"), None);
    assert_eq!(adopt_login_shell_path(false, "/usr/bin"), None);
}

#[test]
fn node_versions_are_read_from_directory_names() {
    assert_eq!(version_key(&name("v24.1.0")), (24, 1, 0));
    assert_eq!(version_key(&name("18.20")), (18, 20, 0));
    assert_eq!(version_key(&name("vv1.x.3.9")), (1, 0, 3));
    assert_eq!(version_key(&name("+7.2.1")), (7, 2, 1));
    assert_eq!(version_key(&None), (0, 0, 0));
    assert_eq!(version_key(&name("system")), (0, 0, 0));
}

#[test]
fn newer_versions_come_first_and_equals_keep_their_order() {
    let keys = vec![(18, 0, 0), (24, 1, 0), (22, 0, 0), (24, 1, 0), (24, 0, 9)];
    assert_eq!(newest_first(&keys), vec![1, 3, 4, 2, 0]);
    assert_eq!(newest_first(&Vec::new()), Vec::<usize>::new());
}

#[test]
fn collects_nvm_bins_under_home_newest_first() {
    let names = vec![name("v22.0.0"), name("v24.1.0"), name("v20.0.0")];
    let dirs = known_path_dirs(&names, &vec![true, true, false]);
    let shown: Vec<String> = dirs
        .iter()
        .map(|dir| match dir {
            PathDir::Home { parts } => format!("~/{}", parts.join("/")),
            PathDir::Node { entry } => format!("node {}", entry),
            PathDir::Fixed { path } => path.clone(),
        })
        .collect();
    assert_eq!(
        shown,
        vec![
            "~/.npm-global/bin",
            "~/node_modules/.bin",
            "node 1",
            "node 0",
            "/opt/homebrew/bin",
            "/opt/homebrew/opt/node@24/bin",
            "/opt/homebrew/opt/node@22/bin",
            "/opt/homebrew/opt/node@20/bin",
            "/opt/homebrew/opt/node@18/bin",
            "/usr/local/bin",
            "/opt/local/bin",
        ]
    );
}

#[test]
fn paths_are_compared_part_by_part() {
    let samples = [
        "", ".", "./", "/", "//", "/.", "a", "./a", "a/", "a//b", "a/./b", "a/b", "/a/b", "/a/b/",
        "../a", "a/..", "./.", "a b",
    ];
    for left in samples {
        for right in samples {
            assert_eq!(
                equal_paths(left, right),
                Path::new(left) == Path::new(right),
                "{:?} {:?}",
                left,
                right
            );
        }
    }
}

#[test]
fn merges_existing_dirs_without_duplicating_current_path() {
    let current = "/base/a:/base/b";
    let dirs = vec![
        candidate("/base/a", true),
        candidate("/base/b", true),
        candidate("/base/missing", false),
    ];
    assert_eq!(merge_existing_path_dirs(&dirs, current), current);

    let dirs = vec![candidate("/base/a/", true), candidate("/base/c", true), candidate("/base/c", true)];
    let merged = merge_existing_path_dirs(&dirs, current);
    assert_eq!(merged, "/base/a:/base/b:/base/c");
    assert_eq!(merge_existing_path_dirs(&dirs, &merged), merged);
    assert!(merged.starts_with(current));
}

#[test]
fn a_path_that_was_empty_keeps_its_empty_part() {
    let dirs = vec![candidate("/usr/local/bin", true)];
    assert_eq!(merge_existing_path_dirs(&dirs, ""), ":/usr/local/bin");
    assert_eq!(merge_existing_path_dirs(&dirs, "/bin::"), "/bin:::/usr/local/bin");
}

#[test]
fn a_directory_that_cannot_stand_on_path_leaves_it_alone() {
    let dirs = vec![candidate("/usr/local/bin", true), candidate("/a:b", true)];
    assert_eq!(merge_existing_path_dirs(&dirs, "/bin"), "/bin");
}
