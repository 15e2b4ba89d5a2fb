use std::collections::HashMap;

use mirua::config::{parse_mirai_from_config, Config, Mirai, JAVA_PATH, JRE};
use mirua::jre::{jre_arch, jre_download_url, jre_suffix, BASE_JRE_URL};
use mirua::self_update::{build_release_url, latest_release, needs_update, not_later};

fn triple(group: &str, artifact: &str, version: &str) -> (String, String, String) {
    (group.to_string(), artifact.to_string(), version.to_string())
}

#[test]
fn configured_coordinate_splits_at_the_colon() {
    assert_eq!(
        parse_mirai_from_config("net.mamoe:mirai-core", "1.2.2"),
        triple("net.mamoe", "mirai-core", "1.2.2")
    );
}

#[test]
fn configured_coordinate_splits_at_the_last_colon() {
    assert_eq!(parse_mirai_from_config("a:b:c", "1"), triple("a:b", "c", "1"));
}

#[test]
fn configured_coordinate_may_have_empty_parts() {
    assert_eq!(parse_mirai_from_config(":", ""), triple("", "", ""));
    assert_eq!(parse_mirai_from_config("g:", "1"), triple("g", "", "1"));
    assert_eq!(parse_mirai_from_config(":a", "1"), triple("", "a", "1"));
}

#[test]
fn configured_coordinate_counts_characters_not_bytes() {
    assert_eq!(parse_mirai_from_config("组织:工件", "版本"), triple("组织", "工件", "版本"));
}

#[test]
fn runtime_address_names_architecture_and_system_twice() {
    assert_eq!(
        jre_download_url("x64", "linux", ".tar.gz"),
        "https://mirrors.tuna.tsinghua.edu.cn/AdoptOpenJDK/11/jre/x64/linux/OpenJDK11U-jre_x64_linux_openj9_11.0.8_10_openj9-0.21.0.tar.gz"
    );
    assert_eq!(
        jre_download_url("x32", "windows", ".zip"),
        format!(
            "{}/x32/windows/OpenJDK11U-jre_x32_windows_openj9_11.0.8_10_openj9-0.21.0.zip",
            BASE_JRE_URL
        )
    );
}

#[test]
fn architectures_are_named_as_the_mirror_names_them() {
    assert_eq!(jre_arch("x86"), Some("x32".to_string()));
    assert_eq!(jre_arch("x86_64"), Some("x64".to_string()));
    assert_eq!(jre_arch("arm"), Some("arm".to_string()));
    assert_eq!(jre_arch("aarch64"), Some("aarch64".to_string()));
    assert_eq!(jre_arch("riscv64"), None);
    assert_eq!(jre_arch(""), None);
    assert_eq!(jre_arch("X86"), None);
}

#[test]
fn archive_format_goes_by_the_system() {
    assert_eq!(jre_suffix("windows"), Some(".zip".to_string()));
    assert_eq!(jre_suffix("linux"), Some(".tar.gz".to_string()));
    assert_eq!(jre_suffix("macos"), None);
    assert_eq!(jre_suffix("freebsd"), None);
}

#[test]
fn texts_are_ordered_by_their_first_difference() {
    assert!(not_later("", ""));
    assert!(not_later("", "a"));
    assert!(!not_later("a", ""));
    assert!(not_later("0.1.2", "0.1.2"));
    assert!(not_later("0.1.2", "0.1.3"));
    assert!(!not_later("0.1.3", "0.1.2"));
    assert!(not_later("0.1", "0.1.0"));
    assert!(!not_later("0.1.0", "0.1"));
    assert!(not_later("0.1.11", "0.1.2"));
    assert!(not_later("z", "é"));
    assert!(not_later("é", "日"));
    assert!(!not_later("日", "é"));
}

#[test]
fn text_order_agrees_with_the_order_of_strings() {
    let samples = ["", "0", "0.1", "0.1.0", "0.1.11", "0.1.2", "0.2", "1", "10", "2", "v", "é", "日本", "日"];
    for a in samples.iter() {
        for b in samples.iter() {
            assert_eq!(not_later(a, b), a <= b);
        }
    }
}

#[test]
fn latest_release_is_the_last_in_text_order() {
    let versions: Vec<String> =
        ["0.1.0", "0.2.1", "0.1.11", "0.2.0"].iter().map(|s| s.to_string()).collect();
    assert_eq!(latest_release(&versions), "0.2.1");
    let one = vec!["0.0.1".to_string()];
    assert_eq!(latest_release(&one), "0.0.1");
    let texts: Vec<String> = ["0.1.2", "0.1.11"].iter().map(|s| s.to_string()).collect();
    assert_eq!(latest_release(&texts), "0.1.2");
}

#[test]
fn update_is_due_only_for_a_later_release() {
    assert!(needs_update("0.2.0", "0.1.0"));
    assert!(!needs_update("0.1.0", "0.1.0"));
    assert!(!needs_update("0.1.0", "0.2.0"));
}

#[test]
fn release_address_names_version_system_and_architecture() {
    assert_eq!(
        build_release_url("0.2.0", "linux", "x86_64"),
        "https://cdn.jsdelivr.net/gh/zkonge/mirua-update/v0.2.0/mirua_linux_x86_64"
    );
}

fn configured(path: Option<&str>, commands: &[&str]) -> Config {
    Config {
        self_update: false,
        bootstrap_commands: commands.iter().map(|c| c.to_string()).collect(),
        jre: JRE { path: path.map(|p| p.to_string()), arch: None },
        entrypoint: "net.example.Main".to_string(),
        mirai: Mirai { full: HashMap::new(), maven: HashMap::new() },
    }
}

#[test]
fn configured_java_wins_over_the_installed_one() {
    assert_eq!(configured(None, &[]).java_path(), "./runtime/bin/java");
    assert_eq!(configured(None, &[]).java_path(), JAVA_PATH);
    assert_eq!(configured(Some("/usr/bin/java"), &[]).java_path(), "/usr/bin/java");
    assert_eq!(configured(Some(""), &[]).java_path(), "");
}

#[test]
fn bootstrap_commands_are_sent_one_per_line() {
    assert_eq!(configured(None, &[]).bootstrap_input(), "");
    assert_eq!(configured(None, &["login 1 2"]).bootstrap_input(), "login 1 2\n");
    assert_eq!(configured(None, &["a", "b", "c"]).bootstrap_input(), "a\nb\nc\n");
}

#[test]
fn empty_bootstrap_commands_still_separate_lines() {
    assert_eq!(configured(None, &[""]).bootstrap_input(), "");
    assert_eq!(configured(None, &["", ""]).bootstrap_input(), "\n\n");
    assert_eq!(configured(None, &["", "a"]).bootstrap_input(), "\na\n");
    assert_eq!(configured(None, &["a", ""]).bootstrap_input(), "a\n\n");
}
