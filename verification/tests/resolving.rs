use dsh_launcher::resolve::{
    candidate_names, first_line, known_global_bin_dirs, resolve_windows_executable, where_command,
    Answer, Probe, Resolver, Variable,
};

fn describe(probe: &Probe) -> String {
    match probe {
        Probe::Supplied => "supplied".to_string(),
        Probe::File { path } => format!("file {}", path),
        Probe::Where { name } => format!("where {}", name),
        Probe::Global { directory, name } => format!("global {} {}", directory, name),
    }
}

fn places(raw: &str, directories: usize) -> Vec<String> {
    let mut search = Resolver::start(raw, directories);
    let mut seen = vec![describe(search.probe())];
    while resolve_windows_executable(&mut search, Answer::Miss).is_none() {
        seen.push(describe(search.probe()));
    }
    seen
}

#[test]
fn bare_names_are_looked_for_on_path_and_in_known_directories() {
    assert_eq!(
        places("npx", 2),
        vec![
            "supplied",
            "where npx.cmd",
            "where npx.exe",
            "global 0 npx.cmd",
            "global 0 npx.exe",
            "global 1 npx.cmd",
            "global 1 npx.exe",
        ]
    );
}

#[test]
fn names_with_an_extension_are_looked_for_as_they_are() {
    assert_eq!(places("dsh.cmd", 1), vec!["supplied", "where dsh.cmd", "global 0 dsh.cmd"]);
    assert_eq!(places(".dsh", 0), vec!["supplied", "where .dsh.cmd", "where .dsh.exe"]);
}

#[test]
fn paths_are_not_searched_in_known_directories() {
    assert_eq!(
        places("tools/dsh", 2),
        vec![
            "supplied",
            "file tools/dsh.cmd",
            "where tools/dsh.cmd",
            "file tools/dsh.exe",
            "where tools/dsh.exe",
            "file tools/dsh",
            "where tools/dsh",
        ]
    );
}

#[test]
fn a_path_without_an_extension_gets_one() {
    assert_eq!(
        places("C:\\tools\\dsh", 1),
        vec![
            "supplied",
            "file C:\\tools\\dsh.cmd",
            "where C:\\tools\\dsh.cmd",
            "file C:\\tools\\dsh.exe",
            "where C:\\tools\\dsh.exe",
            "file C:\\tools\\dsh",
            "where C:\\tools\\dsh",
        ]
    );
    assert_eq!(places("v1.2/dsh", 0)[1], "file v1.2/dsh.cmd");
    for path in ["C:\\tools\\dsh.cmd", "tools/dsh.exe", "C:dsh.x"] {
        assert!(!places(path, 0).iter().any(|place| place.ends_with(".cmd.cmd")));
        assert!(places(path, 0).iter().all(|place| place == "supplied" || place.ends_with(path)));
    }
}

#[test]
fn the_names_that_are_tried() {
    assert_eq!(candidate_names("a.exe", true), vec!["a.exe"]);
    assert_eq!(candidate_names("a", false), vec!["a.cmd", "a.exe"]);
    assert_eq!(candidate_names("b\\a", false), vec!["b\\a.cmd", "b\\a.exe", "b\\a"]);
}

#[test]
fn the_first_hit_decides() {
    let mut search = Resolver::start("dsh", 1);
    let hit = Answer::Hit { text: "C:\\dsh".to_string() };
    assert_eq!(resolve_windows_executable(&mut search, hit).unwrap().unwrap(), "C:\\dsh");

    let mut search = Resolver::start("dsh", 1);
    assert!(resolve_windows_executable(&mut search, Answer::Miss).is_none());
    let blank = Answer::Hit { text: "\r\n  \r\n".to_string() };
    assert!(resolve_windows_executable(&mut search, blank).is_none());
    let found = Answer::Hit { text: "\r\n C:\\npm\\dsh.exe \r\nC:\\other\r\n".to_string() };
    assert_eq!(
        resolve_windows_executable(&mut search, found).unwrap().unwrap(),
        "C:\\npm\\dsh.exe"
    );

    let mut search = Resolver::start("x/dsh", 0);
    assert!(resolve_windows_executable(&mut search, Answer::Miss).is_none());
    let hit = Answer::Hit { text: "ignored".to_string() };
    assert_eq!(resolve_windows_executable(&mut search, hit).unwrap().unwrap(), "x/dsh.cmd");
}

#[test]
fn complaints_about_an_executable() {
    let mut search = Resolver::start("dsh", 0);
    let fault = Answer::Fault { error: "denied".to_string() };
    assert_eq!(
        resolve_windows_executable(&mut search, fault).unwrap().unwrap_err(),
        "无法解析 CLI 路径 dsh：denied"
    );
    let mut search = Resolver::start("dsh", 0);
    let mut last = None;
    while last.is_none() {
        last = resolve_windows_executable(&mut search, Answer::Miss);
    }
    assert_eq!(
        last.unwrap().unwrap_err(),
        "找不到命令 dsh。请确认它能在普通终端中运行，或填写 .cmd/.exe 的完整路径。"
    );
}

#[test]
fn the_first_line_that_is_not_blank() {
    assert_eq!(first_line("\n \n a b \nc"), Some("a b".to_string()));
    assert_eq!(first_line(" \n"), None);
    assert_eq!(first_line(""), None);
}

#[test]
fn where_is_asked_without_a_console() {
    let command = where_command("npm.cmd");
    assert_eq!(command.program, "where.exe");
    assert_eq!(command.args, vec!["npm.cmd"]);
    assert_eq!(command.creation_flags, 0x0800_0000);
}

#[test]
fn known_directories_depend_on_the_variables() {
    let all = known_global_bin_dirs(true, true, true);
    let shown: Vec<String> = all
        .iter()
        .map(|dir| format!("{}/{}", dir.variable.name(), dir.parts.join("/")))
        .collect();
    assert_eq!(
        shown,
        vec![
            "APPDATA/npm",
            "LOCALAPPDATA/pnpm",
            "LOCALAPPDATA/Volta/bin",
            "ProgramFiles/nodejs",
        ]
    );
    assert!(known_global_bin_dirs(false, false, false).is_empty());
    let some = known_global_bin_dirs(false, false, true);
    assert_eq!(some.len(), 1);
    assert_eq!(some[0].variable, Variable::ProgramFiles);
}

fn resolved_npx() -> String {
    // What `where.exe` prints where npx is on PATH.
    let printed = "C:\\Program Files\\nodejs\\npx.cmd\r\n";
    let mut search = Resolver::start("npx", 0);
    loop {
        let answer = match search.probe() {
            Probe::Where { name } if name == "npx.cmd" => Answer::Hit { text: printed.to_string() },
            _ => Answer::Miss,
        };
        if let Some(result) = resolve_windows_executable(&mut search, answer) {
            return result.expect("npx.cmd should be on PATH");
        }
    }
}

#[test]
fn exec_resolves_windows_node_shims_to_absolute_cmd_paths() {
    let path = resolved_npx();
    assert!(path.starts_with("C:\\"));
    assert!(path.to_ascii_lowercase().ends_with("npx.cmd"));
}

#[test]
fn lib_resolves_windows_node_shims_to_absolute_cmd_paths() {
    let path = resolved_npx();
    assert!(path.starts_with("C:\\"));
    assert!(path.to_ascii_lowercase().ends_with("npx.cmd"));
}
