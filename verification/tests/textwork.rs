use mora_perf::api::{is_authorized, upsert_named_profile};
use mora_perf::gamemode::{
    game_list_contains, get_foreground_package, load_game_list, parse_pkg_from_line, sanitize_pkg,
};
use mora_perf::notify::{pkg_from_line, sh_escape_single_quotes, snapshot, snapshot_contains};
use mora_perf::procwatch::{parse_pid_stat, total_cpu_jiffies, ProcWatch};
use mora_perf::mem::read_vmrss_kb;
use mora_perf::user_config::{
    ExternalLedColor, ExternalLedMode, ExternalLedSetting, FanLedColor, FanLedMode, FanLedSetting,
    ProfileType, UserConfig,
};

#[test]
fn game_list_splits_on_all_separators() {
    let list = load_game_list("com.a.game|com.b.game\ncom.c.game\t com.d.game\r\n");
    assert_eq!(list, vec!["com.a.game", "com.b.game", "com.c.game", "com.d.game"]);
    assert!(load_game_list("  \n | \t ").is_empty());
    assert!(game_list_contains(&list, "com.b.game"));
    assert!(!game_list_contains(&list, "com.e.game"));
}

#[test]
fn sanitize_strips_decorations() {
    assert_eq!(sanitize_pkg("  com.example.app  "), "com.example.app");
    assert_eq!(sanitize_pkg("{com.example.app}"), "com.example.app");
    assert_eq!(sanitize_pkg("***"), "");
    assert_eq!(sanitize_pkg("a-b_c.9"), "a-b_c.9");
}

#[test]
fn pkg_parsed_from_activity_lines() {
    assert_eq!(
        parse_pkg_from_line("  mResumedActivity: ActivityRecord{123 u0 com.example.game/.Main t42}"),
        Some("com.example.game".to_string())
    );
    // A slashed token whose package part has a dot.
    assert_eq!(
        parse_pkg_from_line("org.chromium.chrome/com.google.Main"),
        Some("org.chromium.chrome".to_string())
    );
    // Fallback: a com.-prefixed run without a slashed token.
    assert_eq!(
        parse_pkg_from_line("focus on com.android.settings please"),
        Some("com.android.settings".to_string())
    );
    assert_eq!(parse_pkg_from_line("nothing here"), None);
    assert_eq!(parse_pkg_from_line(""), None);
}

#[test]
fn foreground_package_takes_first_line_hit() {
    let out = "junk line\n  ActivityRecord{1 u0 com.a.app/.X}\nmore com.b.app\n";
    assert_eq!(get_foreground_package(out), Some("com.a.app".to_string()));
    assert_eq!(get_foreground_package("no packages at all"), None);
}

#[test]
fn shell_escaping() {
    assert_eq!(sh_escape_single_quotes("plain"), "plain");
    assert_eq!(sh_escape_single_quotes("it's"), "it'\\''s");
    assert_eq!(sh_escape_single_quotes("''"), "'\\'''\\''");
    assert_eq!(sh_escape_single_quotes(""), "");
}

#[test]
fn notification_line_field() {
    assert_eq!(
        pkg_from_line("21|com.google.android.gm|0|null|10123"),
        Some("com.google.android.gm".to_string())
    );
    assert_eq!(pkg_from_line("21|last"), Some("last".to_string()));
    assert_eq!(pkg_from_line("no pipes"), None);
}

#[test]
fn snapshot_keeps_trimmed_nonempty_lines() {
    let snap = snapshot("  line one \n\n\tline two\r\n   \n");
    assert_eq!(snap, vec!["line one", "line two"]);
    assert!(snapshot_contains(&snap, "line two"));
    assert!(!snapshot_contains(&snap, "line three"));
}

#[test]
fn pid_stat_line_parses_name_and_jiffies() {
    // comm may contain spaces and parentheses; the last ')' closes it.
    let line = "1234 (Web (Content)) S 1 2 3 4 5 6 7 8 9 10 700 300 13 14 15";
    let (comm, ticks) = parse_pid_stat(line).unwrap();
    assert_eq!(comm, "Web (Content)");
    assert_eq!(ticks, 1000);
    assert_eq!(parse_pid_stat("garbage"), None);
    assert_eq!(parse_pid_stat("1 (short) S 1 2 3"), None);
}

#[test]
fn proc_watch_reports_top_consumer() {
    let mut w = ProcWatch::new();
    // First scan only records the total.
    assert_eq!(w.scan_top(1_000, &vec![(1, "a".to_string(), 100)]), None);
    // Second scan: process 2 consumed 150 of 500 total jiffies.
    let procs = vec![
        (1u32, "a".to_string(), 150u64),
        (2u32, "b".to_string(), 250u64),
    ];
    assert_eq!(w.scan_top(1_500, &procs), None); // both processes are new: deltas 0
    let procs2 = vec![
        (1u32, "a".to_string(), 200u64),
        (2u32, "b".to_string(), 400u64),
    ];
    let (pid, comm, pct) = w.scan_top(2_000, &procs2).unwrap();
    assert_eq!(pid, 2);
    assert_eq!(comm, "b");
    assert_eq!(pct, 30); // 150 of 500
    // No total advance: nothing reported.
    assert_eq!(w.scan_top(2_000, &procs2), None);
}

#[test]
fn api_authorization() {
    assert!(is_authorized(Some("k3yv4lu3"), None, "k3yv4lu3"));
    assert!(is_authorized(Some("Bearer k3yv4lu3"), None, "k3yv4lu3"));
    assert!(is_authorized(Some("Token k3yv4lu3 "), None, "k3yv4lu3"));
    assert!(is_authorized(None, Some(" k3yv4lu3 "), "k3yv4lu3"));
    assert!(!is_authorized(Some("Bearer wrong"), None, "k3yv4lu3"));
    assert!(!is_authorized(None, None, "k3yv4lu3"));
    // A blank token keeps the port dark.
    assert!(!is_authorized(Some(""), Some(""), "  "));
}

#[test]
fn profile_upsert_updates_or_appends() {
    let mut cfg = UserConfig::default();
    let fan = Some(FanLedSetting { mode: FanLedMode::Flow, color: FanLedColor::Cyan });
    upsert_named_profile(&mut cfg, "Gaming", ProfileType::Gaming, false, fan, None);
    assert_eq!(cfg.profiles.len(), 2);
    assert!(!cfg.profiles[1].enabled);
    assert_eq!(cfg.profiles[1].priority, 10);
    assert_eq!(cfg.profiles[1].fan_led, fan);

    let mut cfg = UserConfig::default();
    cfg.profiles.clear();
    let ext = Some(ExternalLedSetting { mode: ExternalLedMode::Breath, color: ExternalLedColor::Red });
    upsert_named_profile(&mut cfg, "Normal", ProfileType::Normal, true, None, ext);
    assert_eq!(cfg.profiles.len(), 1);
    assert_eq!(cfg.profiles[0].name, "Normal");
    assert_eq!(cfg.profiles[0].priority, 1);
    assert_eq!(cfg.profiles[0].external_led, ext);
}

#[test]
fn total_jiffies_from_aggregate_line() {
    let content = "cpu  100 200 300 abc 50\ncpu0 1 2 3 4\n";
    assert_eq!(total_cpu_jiffies(content), Some(650));
    assert_eq!(total_cpu_jiffies("cpu0 1 2 3 4\n"), None);
    assert_eq!(total_cpu_jiffies("cpu \n"), Some(0));
}

#[test]
fn vmrss_line_parsing() {
    let content = "Name:\tdaemon\nVmRSS:\t  5124 kB\nThreads: 3\n";
    assert_eq!(read_vmrss_kb(content), Some(5124));
    assert_eq!(read_vmrss_kb("Name: x\n"), None);
    assert_eq!(read_vmrss_kb("VmRSS: junk\n"), None);
}
