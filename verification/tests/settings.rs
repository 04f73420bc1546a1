use dsh_launcher::config::{
    check_config, dsh_home, is_safe_authority, is_safe_package_spec, package_manifest,
    profile_manifest, profile_manifest_path, read_config, save_window_size, validate_config,
    CloseBehavior, LaunchMode, LauncherConfig,
};
use std::path::PathBuf;

fn settings() -> LauncherConfig {
    LauncherConfig::for_directories(
        Some(PathBuf::from("/home/user")),
        Some(PathBuf::from("/home/user/Downloads")),
    )
}

#[test]
fn validates_authorities_without_shell_metacharacters() {
    assert!(is_safe_authority("localhost:3080"));
    assert!(is_safe_authority("[::1]:3080"));
    assert!(!is_safe_authority("host && calc"));
    assert!(!is_safe_authority(""));
}

#[test]
fn validates_package_specs() {
    assert!(is_safe_package_spec("@deepseek-ai/dsh"));
    assert!(is_safe_package_spec("@deepseek-ai/dsh@latest"));
    assert!(!is_safe_package_spec("pkg; echo nope"));
}

#[test]
fn refuses_package_specs_that_are_empty_or_not_ascii() {
    assert!(!is_safe_package_spec(""));
    assert!(!is_safe_package_spec("dsh包"));
    assert!(!is_safe_package_spec("a:b"));
    assert!(is_safe_authority("a_b.c-d:1"));
    assert!(!is_safe_authority("a/b"));
}

#[test]
fn default_settings_follow_the_directories() {
    let config = settings();
    assert_eq!(config.launch_mode, LaunchMode::Command);
    assert_eq!(config.executable, "dsh");
    assert_eq!(config.npx_package, "@deepseek-ai/dsh");
    assert_eq!(config.working_directory, "/home/user");
    assert_eq!(config.dsh_home, "");
    assert_eq!(config.port, 3080);
    assert!(config.trusted_hosts.is_empty());
    assert!(config.auto_start && config.open_on_ready && config.stop_dsh_on_exit);
    assert_eq!(config.close_behavior, CloseBehavior::Tray);
    assert_eq!(CloseBehavior::default(), CloseBehavior::Tray);
    assert_eq!(config.download_directory, "/home/user/Downloads");
    assert!(!config.download_ask && !config.download_choose_location);
    assert!(config.auto_check_updates);
    assert_eq!((config.window_width, config.window_height), (880, 760));
}

#[test]
fn unknown_directories_fall_back() {
    let config = LauncherConfig::for_directories(None, None);
    assert_eq!(config.working_directory, ".");
    assert_eq!(config.download_directory, ".");
    let config = LauncherConfig::for_directories(Some(PathBuf::from("/h")), None);
    assert_eq!(config.download_directory, "/h");
    let config = LauncherConfig::for_directories(None, Some(PathBuf::from("/d")));
    assert_eq!(config.working_directory, ".");
    assert_eq!(config.download_directory, "/d");
}

#[test]
fn every_complaint_about_the_settings() {
    let complaint = |config: &LauncherConfig| check_config(config, true, true).unwrap_err();
    assert!(check_config(&settings(), true, true).is_ok());

    let mut config = settings();
    config.port = 1023;
    assert_eq!(complaint(&config), "端口必须在 1024 到 65535 之间");
    config.port = 1024;
    assert!(check_config(&config, true, true).is_ok());

    assert_eq!(
        check_config(&settings(), false, true).unwrap_err(),
        "工作目录不存在：/home/user"
    );

    let mut config = settings();
    config.executable = " \t".to_string();
    assert_eq!(complaint(&config), "dsh 命令不能为空");
    config.launch_mode = LaunchMode::Npx;
    assert!(check_config(&config, true, true).is_ok());

    config.npx_package = "dsh && x".to_string();
    assert_eq!(complaint(&config), "npm 包名包含不支持的字符");
    config.launch_mode = LaunchMode::Command;
    config.executable = "dsh".to_string();
    assert!(check_config(&config, true, true).is_ok());

    assert_eq!(
        check_config(&settings(), true, false).unwrap_err(),
        "下载目录必须是绝对路径"
    );
    let mut config = settings();
    config.download_directory = "  ".to_string();
    assert_eq!(complaint(&config), "下载目录必须是绝对路径");

    let mut config = settings();
    config.trusted_hosts = vec!["example.test".to_string(), "a b".to_string()];
    assert_eq!(
        complaint(&config),
        "可信主机只能包含字母、数字、点、短横线、方括号、冒号和下划线"
    );
}

#[test]
fn complaints_come_in_order() {
    let mut config = settings();
    config.port = 80;
    config.executable = String::new();
    assert_eq!(
        check_config(&config, false, false).unwrap_err(),
        "端口必须在 1024 到 65535 之间"
    );
    config.port = 8080;
    assert_eq!(
        check_config(&config, false, false).unwrap_err(),
        "工作目录不存在：/home/user"
    );
    assert_eq!(check_config(&config, true, false).unwrap_err(), "dsh 命令不能为空");
}

#[test]
fn validation_asks_whether_the_download_directory_is_absolute() {
    let mut config = settings();
    config.download_directory = " /srv/files ".to_string();
    assert!(validate_config(&config, true).is_ok());
    for relative in ["files/here", "a/b", "downloads", "a\\b"] {
        config.download_directory = relative.to_string();
        assert_eq!(
            validate_config(&config, true).unwrap_err(),
            "下载目录必须是绝对路径"
        );
    }
}

#[test]
fn missing_settings_are_the_defaults() {
    let home = Some(PathBuf::from("/h"));
    let download = Some(PathBuf::from("/d"));
    let config = read_config(None, home.clone(), download.clone()).unwrap();
    assert_eq!(config.port, 3080);
    assert_eq!(config.working_directory, "/h");
    assert_eq!(config.download_directory, "/d");
    assert_eq!(read_config(None, home.clone(), None).unwrap().download_directory, "/h");
    let mut config = settings();
    config.port = 4000;
    let config = read_config(Some(Ok(config)), home.clone(), download.clone()).unwrap();
    assert_eq!((config.port, config.working_directory.as_str()), (4000, "/home/user"));
    assert_eq!(
        read_config(Some(Err("expected value".to_string())), home, download).unwrap_err(),
        "配置文件格式无效：expected value"
    );
}

#[test]
fn dsh_keeps_its_files_where_the_settings_say() {
    let mut config = settings();
    config.dsh_home = "  /srv/dsh ".to_string();
    let place = dsh_home(&config, Some(PathBuf::from("/home/user")));
    assert_eq!(place.root, PathBuf::from("/srv/dsh"));
    assert!(place.parts.is_empty());

    config.dsh_home = " ".to_string();
    let place = dsh_home(&config, Some(PathBuf::from("/home/user")));
    assert_eq!(place.root, PathBuf::from("/home/user"));
    assert_eq!(place.parts, vec![".dsh"]);

    let place = dsh_home(&config, None);
    assert_eq!(place.root, PathBuf::from("."));
    assert_eq!(place.parts, vec![".dsh"]);
}

#[test]
fn manifests_stand_below_the_profile() {
    let mut config = settings();
    config.dsh_home = "/srv/dsh".to_string();
    let place = profile_manifest(dsh_home(&config, None));
    assert_eq!(place.root, PathBuf::from("/srv/dsh"));
    assert_eq!(place.parts, vec!["profiles", "web", "package.json"]);
    let place = profile_manifest_path(&config);
    assert_eq!(place.parts, vec!["profiles", "web", "package.json"]);
    let place = package_manifest(dsh_home(&config, None), "@scope/plugin");
    assert_eq!(
        place.parts,
        vec!["profiles", "web", "node_modules", "@scope/plugin", "package.json"]
    );
}

#[test]
fn only_proper_window_sizes_are_kept() {
    let mut config = settings();
    assert!(save_window_size(&mut config, 620, 560));
    assert_eq!((config.window_width, config.window_height), (620, 560));
    assert!(save_window_size(&mut config, 4096, 4096));
    assert!(!save_window_size(&mut config, 619, 700));
    assert!(!save_window_size(&mut config, 700, 559));
    assert!(!save_window_size(&mut config, 4097, 700));
    assert!(!save_window_size(&mut config, 700, 4097));
    assert_eq!((config.window_width, config.window_height), (4096, 4096));
}
