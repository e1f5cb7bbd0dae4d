use mimic::keyring::{format_fingerprint, format_unix_timestamp};
use mimic::sandbox::{detect_gpg_dir, generate_sandbox_pacman_conf};
use mimic::ui::{build_candy_bar, MIMIC_GREEN_BOLD};
use std::path::PathBuf;

#[test]
fn test_generate_sandbox_pacman_conf_overrides_siglevels() {
    let sample = r#"
[options]
RootDir = /
DBPath = /var/lib/pacman/
SigLevel = Required DatabaseOptional
LocalFileSigLevel = Optional
#RemoteFileSigLevel = Required

[cachyos-extra-v3]
Include = /etc/pacman.d/cachyos-v3-mirrorlist
SigLevel = PackageRequired

[extra]
Include = /etc/pacman.d/mirrorlist
"#;
    let generated = generate_sandbox_pacman_conf(sample);
    assert!(!generated.contains("Required DatabaseOptional"));
    assert!(!generated.contains("PackageRequired"));
    assert!(generated.contains("SigLevel = Never"));
    assert!(generated.contains("LocalFileSigLevel = Never"));
    assert!(generated.contains("RemoteFileSigLevel = Never"));
}

#[test]
fn test_generate_sandbox_pacman_conf_empty() {
    let generated = generate_sandbox_pacman_conf("");
    assert!(generated.contains("[options]"));
    assert!(generated.contains("SigLevel = Never"));
    assert!(generated.contains("LocalFileSigLevel = Never"));
    assert!(generated.contains("RemoteFileSigLevel = Never"));
}

#[test]
fn test_detect_gpg_dir() {
    let sample_default = r#"
[options]
#GPGDir = /etc/pacman.d/gnupg/
"#;
    assert_eq!(PathBuf::from(detect_gpg_dir(sample_default)), PathBuf::from("/etc/pacman.d/gnupg"));

    let sample_custom = r#"
[options]
GPGDir = /custom/pacman/gpg
"#;
    assert_eq!(PathBuf::from(detect_gpg_dir(sample_custom)), PathBuf::from("/custom/pacman/gpg"));
}

#[test]
fn test_format_unix_timestamp() {
    assert_eq!(format_unix_timestamp("1669893366"), Some("2022-12-01".to_string()));
    assert_eq!(format_unix_timestamp("0"), None);
    assert_eq!(format_unix_timestamp("-100"), None);
    assert_eq!(format_unix_timestamp("invalid"), None);
}

#[test]
fn test_format_fingerprint() {
    let fpr = "6EFFE9382C1406BB8C71591FF7BFE93A8C440483";
    let formatted = format_fingerprint(fpr);
    assert_eq!(formatted, "6EFF E938 2C14 06BB 8C71  591F F7BF E93A 8C44 0483");
}

#[test]
fn timestamps_across_leap_years() {
    assert_eq!(format_unix_timestamp("86400"), Some("1970-01-02".to_string()));
    assert_eq!(format_unix_timestamp("951782400"), Some("2000-02-29".to_string()));
    assert_eq!(format_unix_timestamp("1709251199"), Some("2024-02-29".to_string()));
    assert_eq!(format_unix_timestamp(""), None);
}

#[test]
fn fingerprints_of_other_lengths_stay() {
    assert_eq!(format_fingerprint("ABCD1234"), "ABCD1234");
    assert_eq!(format_fingerprint(""), "");
    assert_eq!(
        format_fingerprint("6eff:e938:2c14:06bb:8c71:591f:f7bf:e93a:8c44:0483"),
        "6eff e938 2c14 06bb 8c71  591f f7bf e93a 8c44 0483"
    );
}

#[test]
fn test_candy_bar_lead_cursor() {
    let bar_0 = build_candy_bar(0, 20, 0);
    assert!(bar_0.contains("👑"), "Bar at 0% should contain the crown cursor");
    assert!(bar_0.contains(MIMIC_GREEN_BOLD));

    let bar_50 = build_candy_bar(50, 20, 2);
    assert!(bar_50.contains("👑"), "Bar at 50% should contain the crown cursor");
    assert!(bar_50.contains("━"));

    let bar_100 = build_candy_bar(100, 20, 0);
    assert!(bar_100.contains("👑"));
    assert!(bar_100.contains(&"━".repeat(20)));
}

#[test]
fn test_candy_animation_ticks() {
    let bar_tick0 = build_candy_bar(20, 20, 0);
    let bar_tick1 = build_candy_bar(20, 20, 2);
    // Ticks change the candy dot phases
    assert_ne!(bar_tick0, bar_tick1, "Different ticks should animate the candy dots");
}

#[test]
fn candy_bar_clamps_percent() {
    assert_eq!(build_candy_bar(150, 10, 0), build_candy_bar(100, 10, 0));
    assert_eq!(build_candy_bar(-5, 10, 3), build_candy_bar(0, 10, 3));
}

#[test]
fn sandbox_conf_without_options_section_gets_one() {
    let generated = generate_sandbox_pacman_conf("[core]\nServer = https://m/core\n");
    assert_eq!(
        generated,
        "[options]\nSigLevel = Never\nLocalFileSigLevel = Never\nRemoteFileSigLevel = Never\n\n[core]\nServer = https://m/core"
    );
    let kept = generate_sandbox_pacman_conf("[options]\nSigLevel = Required\n#LocalFileSigLevel = Optional\n");
    assert_eq!(kept, "[options]\nRemoteFileSigLevel = Never\nSigLevel = Never\nLocalFileSigLevel = Never");
}

#[test]
fn sandbox_conf_adds_every_missing_level_under_options() {
    let generated = generate_sandbox_pacman_conf("[options]\nSigLevel = Required\n");
    assert_eq!(
        generated,
        "[options]\nLocalFileSigLevel = Never\nRemoteFileSigLevel = Never\nSigLevel = Never"
    );
    let complete = generate_sandbox_pacman_conf(
        "[options]\nSigLevel = Required\nLocalFileSigLevel = Optional\n# RemoteFileSigLevel = Required\n",
    );
    assert_eq!(
        complete,
        "[options]\nSigLevel = Never\nLocalFileSigLevel = Never\nRemoteFileSigLevel = Never"
    );
}

#[test]
fn formatting_a_formatted_fingerprint_changes_nothing() {
    let once = format_fingerprint("6EFFE9382C1406BB8C71591FF7BFE93A8C440483");
    assert_eq!(format_fingerprint(&once), once);
    let digits: String = once.chars().filter(|c| c.is_ascii_alphanumeric()).collect();
    assert_eq!(digits, "6EFFE9382C1406BB8C71591FF7BFE93A8C440483");
}

#[test]
fn candy_bar_counts_and_period() {
    let count = |s: &str, c: char| s.chars().filter(|x| *x == c).count();
    assert_eq!(build_candy_bar(150, 10, 3), build_candy_bar(100, 10, 3));
    assert_eq!(build_candy_bar(-5, 10, 3), build_candy_bar(0, 10, 3));
    let done = build_candy_bar(100, 10, 3);
    assert_eq!(count(&done, '👑'), 1);
    assert_eq!(count(&done, '━'), 10);
    assert_eq!(count(&done, '•') + count(&done, '·'), 0);
    let part = build_candy_bar(40, 10, 1);
    assert_eq!(count(&part, '👑'), 1);
    assert_eq!(count(&part, '━'), 4);
    assert_eq!(count(&part, '•') + count(&part, '·'), 5);
    assert_eq!(build_candy_bar(40, 10, 5), part);
}

#[test]
fn timestamps_follow_the_gregorian_calendar() {
    assert_eq!(format_unix_timestamp("4107542400"), Some("2100-03-01".to_string()));
    assert_eq!(format_unix_timestamp("4107542399"), Some("2100-02-28".to_string()));
    assert_eq!(format_unix_timestamp("946684799"), Some("1999-12-31".to_string()));
}

#[test]
fn sandbox_conf_text_lines_are_the_host_lines_settled() {
    let raw = "[options]\nSigLevel = Required\n\n[core]\nServer = x\n";
    let generated = generate_sandbox_pacman_conf(raw);
    let got: Vec<&str> = generated.lines().collect();
    assert_eq!(
        got,
        vec![
            "[options]",
            "LocalFileSigLevel = Never",
            "RemoteFileSigLevel = Never",
            "SigLevel = Never",
            "",
            "[core]",
            "Server = x",
        ]
    );
}
