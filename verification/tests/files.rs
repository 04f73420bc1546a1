use dsh_launcher::config::LauncherConfig;
use dsh_launcher::dsh_files::{
    config_file_path, directory_error, file_info, list_config_files, open_dsh_config, open_target,
    read_error, save_dsh_config, saved_info, write_error, OpenTarget,
};
use dsh_launcher::exec::Platform;
use std::path::PathBuf;

fn settings() -> LauncherConfig {
    let mut config = LauncherConfig::for_directories(None, None);
    config.dsh_home = "/srv/dsh".to_string();
    config
}

#[test]
fn the_files_in_their_order() {
    let files = list_config_files(&settings());
    let shown: Vec<(String, String, String)> = files
        .iter()
        .map(|file| (file.id.clone(), file.name.clone(), file.place.parts.join("|")))
        .collect();
    let expected = [
        ("credentials", "全局凭据 · .credentials.yaml", ".credentials.yaml"),
        ("settings", "全局设置 · settings.yaml", "settings.yaml"),
        ("home-patch", "全局补丁 · cordis.patch.yml", "cordis.patch.yml"),
        ("web-manifest", "Web profile · package.json", "profiles/web/package.json"),
        ("web-patch", "Web profile · cordis.patch.yml", "profiles/web/cordis.patch.yml"),
        (
            "web-workspace",
            "Web profile · pnpm-workspace.yaml",
            "profiles/web/pnpm-workspace.yaml",
        ),
    ];
    assert_eq!(shown.len(), expected.len());
    for (at, (id, name, relative)) in expected.iter().enumerate() {
        assert_eq!(shown[at], (id.to_string(), name.to_string(), relative.to_string()));
        assert_eq!(files[at].place.root, PathBuf::from("/srv/dsh"));
    }
}

#[test]
fn files_are_found_by_their_identifier() {
    let file = config_file_path(&settings(), "web-manifest").unwrap();
    assert_eq!(file.leaf, "package.json");
    assert!(config_file_path(&settings(), "web").is_none());
    assert!(config_file_path(&settings(), "").is_none());
}

#[test]
fn every_listed_file_is_editable() {
    for file in list_config_files(&settings()) {
        let info = file_info(file, "/p".to_string(), None);
        assert!(info.editable, "{}", info.id);
        assert_eq!(info.content, "");
        assert_eq!(info.path, "/p");
    }
    let mut file = config_file_path(&settings(), "settings").unwrap();
    file.leaf = "settings".to_string();
    let info = file_info(file, "/p".to_string(), Some("a: 1".to_string()));
    assert!(!info.editable);
    assert_eq!(info.content, "a: 1");
}

#[test]
fn saving_is_refused_for_unknown_and_large_files() {
    let config = settings();
    let error = |id: &str, content: &str| match save_dsh_config(&config, id, content) {
        Ok(_) => String::new(),
        Err(message) => message,
    };
    assert_eq!(error("nope", "x"), "未知的 dsh 配置文件");
    let limit = "x".repeat(2_000_000);
    assert_eq!(error("settings", &limit), "");
    assert_eq!(error("settings", &(limit.clone() + "x")), "配置文件超过 2 MB，未保存");
    assert_eq!(error("nope", &(limit + "x")), "未知的 dsh 配置文件");
    // Bytes count, not characters.
    assert_eq!(error("settings", &"启".repeat(700_000)), "配置文件超过 2 MB，未保存");
    let file = save_dsh_config(&config, "settings", "a").unwrap();
    let info = saved_info(file, "/p".to_string(), "a".to_string());
    assert_eq!((info.id.as_str(), info.content.as_str(), info.editable), ("settings", "a", true));
}

#[test]
fn opening_a_file() {
    let plan = open_dsh_config(&settings(), "settings", Platform::Windows).unwrap();
    assert_eq!(plan.program, "explorer.exe");
    assert_eq!(plan.file.id, "settings");
    assert_eq!(
        open_dsh_config(&settings(), "settings", Platform::MacOs).unwrap().program,
        "xdg-open"
    );
    match open_dsh_config(&settings(), "nope", Platform::Unix) {
        Ok(_) => panic!("there is no such file"),
        Err(message) => assert_eq!(message, "未知的 dsh 配置文件"),
    }
    assert_eq!(open_target(true, true), OpenTarget::File);
    assert_eq!(open_target(false, true), OpenTarget::Directory);
    assert_eq!(open_target(false, false), OpenTarget::Current);
}

#[test]
fn complaints_about_files() {
    assert_eq!(read_error("/p", "denied"), "无法读取 /p：denied");
    assert_eq!(write_error("/p", "full"), "无法写入 /p：full");
    assert_eq!(directory_error("denied"), "无法创建配置目录：denied");
}
