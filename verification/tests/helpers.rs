use dsh_launcher::exec::{Platform, CREATE_NO_WINDOW};
use dsh_launcher::updates::release_version_key;
use dsh_launcher::util::{
    epoch_secs, is_newer, open_external, seconds_or_zero, truncate_chars, version_key,
};

#[test]
fn util_truncates_diagnostic_lines_on_character_boundaries() {
    assert_eq!(truncate_chars("启动失败", 5), "启动失败");
    assert_eq!(truncate_chars("abcdef", 4), "abc…");
}

#[test]
fn lib_truncates_diagnostic_lines_on_character_boundaries() {
    assert_eq!(truncate_chars("启动失败", 5), "启动失败");
    assert_eq!(truncate_chars("abcdef", 4), "abc…");
}

#[test]
fn util_compares_release_tags_as_versions() {
    assert_eq!(version_key("v0.6.0"), version_key("0.6"));
    assert!(version_key("v0.6.1") > version_key("0.6.0"));
    assert!(!(version_key("0.6.0-beta") > version_key("0.6.0")));
}

#[test]
fn lib_compares_release_tags_as_versions() {
    assert_eq!(release_version_key("v0.6.0"), release_version_key("0.6"));
    assert!(release_version_key("v0.6.1") > release_version_key("0.6.0"));
    assert!(!(release_version_key("0.6.0-beta") > release_version_key("0.6.0")));
}

#[test]
fn truncation_at_its_limits() {
    assert_eq!(truncate_chars("abcd", 4), "abcd");
    assert_eq!(truncate_chars("abcd", 1), "…");
    assert_eq!(truncate_chars("abcd", 0), "…");
    assert_eq!(truncate_chars("", 0), "");
    let once = truncate_chars("一二三四五", 3);
    assert_eq!(once, "一二…");
    assert_eq!(truncate_chars(&once, 3), once);
    assert_eq!(truncate_chars(&truncate_chars("abcd", 0), 0), "…");
}

#[test]
fn version_numbers_in_detail() {
    assert_eq!(version_key(" V1.20.3-rc.7+build9 "), vec![1, 20, 3, 0, 7]);
    assert_eq!(version_key("0.1.0-rc.8"), vec![0, 1, 0, 0, 8]);
    assert_eq!(version_key("0.0.0"), Vec::<u64>::new());
    assert_eq!(version_key(""), Vec::<u64>::new());
    assert_eq!(version_key("12ab.3x"), vec![12, 3]);
    assert_eq!(version_key("99999999999999999999.1"), vec![0, 1]);
    assert_eq!(version_key("v1.2.0"), version_key("1.2"));
    assert_eq!(version_key("1.2-beta"), version_key("1.2"));
    assert_eq!(version_key("1.2+"), version_key("1.2"));
    assert_eq!(version_key("V1.2"), version_key("1.2"));
    assert_eq!(version_key(&format!("v{}", " 1.2 ".trim())), version_key(" 1.2 "));
    assert_eq!(version_key(" 1.2 .0"), version_key(" 1.2 "));
    assert_eq!(version_key("v1.2 -beta "), version_key("v1.2 "));
    assert!(is_newer(&version_key("1.2-7"), &version_key("1.2")));
}

#[test]
fn the_order_of_versions_is_that_of_their_numbers() {
    let samples: Vec<Vec<u64>> = vec![vec![], vec![1], vec![1, 0, 2], vec![1, 2], vec![2]];
    for left in &samples {
        for right in &samples {
            assert_eq!(is_newer(left, right), left > right);
        }
    }
}

#[test]
fn the_clock_reads_seconds() {
    let now = std::time::SystemTime::now()
        .duration_since(std::time::UNIX_EPOCH)
        .unwrap()
        .as_secs();
    let read = epoch_secs();
    assert!(read >= now && read <= now + 5);
    assert_eq!(seconds_or_zero(Some(12)), 12);
    assert_eq!(seconds_or_zero(None), 0);
}

#[test]
fn links_are_opened_by_the_system() {
    let command = open_external("https://dsh.aitreez.com/", Platform::Windows).unwrap();
    assert_eq!(command.program, "explorer.exe");
    assert_eq!(command.args, vec!["https://dsh.aitreez.com/"]);
    assert_eq!(command.creation_flags, CREATE_NO_WINDOW);
    let command = open_external("http://a", Platform::MacOs).unwrap();
    assert_eq!((command.program.as_str(), command.creation_flags), ("open", 0));
    let command = open_external("http://a", Platform::Unix).unwrap();
    assert_eq!(command.program, "xdg-open");
    for url in ["file:///etc", "HTTPS://a", "", "javascript:1"] {
        assert_eq!(
            open_external(url, Platform::Unix).unwrap_err(),
            "只允许打开 http(s) 链接"
        );
    }
}
