use lx::cli::{plan_for_glob, plan_for_path, resolve_options, resolve_show_dirs, Args, GlobPlan, PathKind, Plan};
use lx::config::{default_config_text, initial_config, load_config, Colors, Config, Settings};
use lx::entry::Entry;
use lx::mode::{get_permissions, is_executable, timestamp_seconds};
use lx::order::order_entries;
use lx::pattern::{entry_is_listed, has_glob_chars, parse_directory_and_pattern, NamePattern};
use lx::render::{colored, entry_line, format_date, print_entries, text_or_unknown};
use lx::size::{format_size, strip_trailing_zero};
use lx::toml_doc::{TomlDocument, TomlScalar, TomlTable};

/// Reads a command line the way the `lx` program declares it.
fn args_from(parts: &[&str]) -> Args {
    let flag = |name: &'static str| clap::Arg::new(name).long(name).action(clap::ArgAction::SetTrue);
    let matches = clap::Command::new("lx")
        .arg(clap::Arg::new("path").default_value("."))
        .arg(flag("all").short('a'))
        .arg(flag("permissions").short('p'))
        .arg(flag("version").short('v'))
        .arg(flag("showdir"))
        .arg(flag("no-showdir"))
        .try_get_matches_from(parts)
        .unwrap();
    Args {
        path: matches.get_one::<String>("path").unwrap().clone(),
        all: matches.get_flag("all"),
        permissions: matches.get_flag("permissions"),
        version: matches.get_flag("version"),
        showdir: matches.get_flag("showdir"),
        no_showdir: matches.get_flag("no-showdir"),
    }
}

#[test]
fn no_showdir_hides_directories() {
    let args = args_from(&["lx", "--no-showdir"]);
    let settings = Settings { showdir: true, ..Settings::default() };

    assert!(!resolve_show_dirs(&args, &settings));
}

#[test]
fn showdir_overrides_config_false() {
    let args = args_from(&["lx", "--showdir"]);
    let settings = Settings { showdir: false, ..Settings::default() };

    assert!(resolve_show_dirs(&args, &settings));
}

#[test]
fn config_controls_showdir_without_cli_override() {
    let args = args_from(&["lx"]);
    let settings = Settings { showdir: false, ..Settings::default() };

    assert!(!resolve_show_dirs(&args, &settings));
}

#[test]
fn permissions_identify_symlink_modes() {
    assert_eq!(get_permissions(0o120777), "lrwxrwxrwx");
}

#[test]
fn sizes_are_human_readable() {
    assert_eq!(format_size(42, false), "42B");
    assert_eq!(format_size(1024, false), "1K");
    assert_eq!(format_size(1536, false), "1.5K");
    assert_eq!(format_size(0, true), "-");
}

/// The size text as a one-decimal float print gives it.
fn float_size(bytes: u64) -> String {
    let units: [(u64, &str); 4] = [(1 << 40, "T"), (1 << 30, "G"), (1 << 20, "M"), (1 << 10, "K")];
    for (unit, suffix) in units {
        if bytes >= unit {
            let text = format!("{:.1}", bytes as f64 / unit as f64);
            let text = match text.strip_suffix(".0") {
                Some(whole) => whole.to_string(),
                None => text,
            };
            return format!("{}{}", text, suffix);
        }
    }
    format!("{}B", bytes)
}

#[test]
fn sizes_agree_with_float_printing() {
    let mut samples: Vec<u64> = Vec::new();
    for b in 0..5000u64 {
        samples.push(b);
    }
    for shift in 10..64u32 {
        let base = 1u64 << shift;
        for delta in 0..300u64 {
            samples.push(base.wrapping_add(delta));
            samples.push(base.wrapping_sub(delta));
            samples.push(base / 10 * 3 + delta);
        }
    }
    samples.push(u64::MAX);
    samples.push(u64::MAX - 1);
    samples.push((1u64 << 53) + 1);
    samples.push((1u64 << 54) + 3);
    samples.push(1_152_921_504_606_846_976 + 57_646_075_230_342_348);
    for b in samples {
        assert_eq!(format_size(b, false), float_size(b), "bytes = {}", b);
    }
}

#[test]
fn sizes_round_ties_to_even() {
    assert_eq!(format_size(1280, false), "1.2K");
    assert_eq!(format_size(1792, false), "1.8K");
    assert_eq!(format_size(1048575, false), "1024K");
    assert_eq!(format_size(1023, false), "1023B");
    assert_eq!(format_size(5 * (1 << 30), false), "5G");
    assert_eq!(format_size(u64::MAX, false), "16777216T");
    assert_eq!(format_size(12345, true), "-");
}

#[test]
fn trailing_zero_is_stripped_only_after_the_first_dot() {
    assert_eq!(strip_trailing_zero("1.0"), "1");
    assert_eq!(strip_trailing_zero("1.5"), "1.5");
    assert_eq!(strip_trailing_zero("10"), "10");
    assert_eq!(strip_trailing_zero("1.0.0"), "1.0.0");
    assert_eq!(strip_trailing_zero(".0"), "");
    assert_eq!(strip_trailing_zero("2.00"), "2.00");
}

#[test]
fn permission_strings() {
    assert_eq!(get_permissions(0o040755), "drwxr-xr-x");
    assert_eq!(get_permissions(0o100644), "-rw-r--r--");
    assert_eq!(get_permissions(0o100000), "----------");
    assert_eq!(get_permissions(0o104751), "-rwxr-x--x");
    assert!(is_executable(false, 0o100001));
    assert!(!is_executable(true, 0o040755));
    assert!(!is_executable(false, 0o100644));
}

#[test]
fn timestamps_before_the_epoch_are_negative() {
    assert_eq!(timestamp_seconds(true, 1_700_000_000), 1_700_000_000);
    assert_eq!(timestamp_seconds(false, 60), -60);
    assert_eq!(timestamp_seconds(true, 0), 0);
    assert_eq!(timestamp_seconds(true, u64::MAX), -1);
}

fn assert_initial(config: &Config) {
    assert_eq!(config.colors.size, "32");
    assert_eq!(config.colors.date, "34");
    assert_eq!(config.colors.time, "34");
    assert_eq!(config.colors.file, "38;5;250");
    assert_eq!(config.colors.dir, "33");
    assert_eq!(config.colors.executable, "32");
    assert!(!config.settings.all);
    assert!(!config.settings.permissions);
    assert!(config.settings.showdir);
}

#[test]
fn missing_or_broken_config_gives_initial_settings() {
    assert_initial(&load_config(None));
    assert_initial(&load_config(Some("")));
    assert_initial(&load_config(Some("this is [ not toml")));
    assert_initial(&initial_config());
}

#[test]
fn default_config_file_gives_initial_settings() {
    let text = default_config_text();
    assert!(text.starts_with("[settings]\nall = false\n"));
    assert_initial(&load_config(Some(&text)));
}

#[test]
fn config_file_settings_are_applied() {
    let text = "[settings]\nall = true\npermissions = true\nshowdir = false\n\n[colors]\nsize = \"31\"\ndir = \"1;34\"\nexec = \"35\"\n";
    let config = load_config(Some(text));
    assert!(config.settings.all);
    assert!(config.settings.permissions);
    assert!(!config.settings.showdir);
    assert_eq!(config.colors.size, "31");
    assert_eq!(config.colors.dir, "1;34");
    assert_eq!(config.colors.executable, "35");
    assert_eq!(config.colors.date, "34");
    assert_eq!(config.colors.file, "38;5;250");
}

#[test]
fn config_values_of_the_wrong_type_fall_back() {
    let text = "colors = 5\n[settings]\nall = \"yes\"\nshowdir = 0\n";
    let config = load_config(Some(text));
    assert_initial(&config);
    let text = "[colors]\nsize = 7\ntime = \"36\"\n";
    let config = load_config(Some(text));
    assert_eq!(config.colors.size, "32");
    assert_eq!(config.colors.time, "36");
}

#[test]
fn default_colors() {
    let colors = Colors::default();
    assert_eq!(colors.size, "32");
    assert_eq!(colors.file, "38;5;250");
    let config = Config::default();
    assert!(!config.settings.showdir);
    assert_eq!(config.colors.executable, "32");
}

#[test]
fn flags_override_configuration() {
    let settings = Settings { all: false, permissions: false, showdir: true };
    let options = resolve_options(&args_from(&["lx", "-a", "-p", "--no-showdir", "--showdir"]), &settings);
    assert!(options.show_all);
    assert!(options.show_permissions);
    assert!(!options.show_dirs);
    let settings = Settings { all: true, permissions: true, showdir: false };
    let options = resolve_options(&args_from(&["lx", "src"]), &settings);
    assert!(options.show_all);
    assert!(options.show_permissions);
    assert!(!options.show_dirs);
}

#[test]
fn glob_characters() {
    assert!(has_glob_chars("*.md"));
    assert!(has_glob_chars("file?.txt"));
    assert!(has_glob_chars("[ab].rs"));
    assert!(!has_glob_chars("src/main.rs"));
    assert!(!has_glob_chars(""));
}

fn split(input: &str) -> (String, Option<String>) {
    let (dir, pattern) = parse_directory_and_pattern(input);
    (dir, pattern.map(|p| p.as_str().to_string()))
}

#[test]
fn glob_paths_split_into_directory_and_pattern() {
    assert_eq!(split("*.md"), (".".to_string(), Some("*.md".to_string())));
    assert_eq!(split("src/*.rs"), ("src".to_string(), Some("*.rs".to_string())));
    assert_eq!(split("a/b/c?.txt"), ("a/b".to_string(), Some("c?.txt".to_string())));
    assert_eq!(split("/*.conf"), ("/".to_string(), Some("*.conf".to_string())));
    assert_eq!(split("src"), ("src".to_string(), None));
    assert_eq!(split("***"), (".".to_string(), None));
    assert_eq!(split("*/.."), ("*".to_string(), None));
}

#[test]
fn listed_entries_follow_hidden_flag_and_pattern() {
    let md = NamePattern::new("*.md").unwrap();
    assert!(entry_is_listed("README.md", false, Some(&md)));
    assert!(!entry_is_listed("main.rs", false, Some(&md)));
    assert!(!entry_is_listed(".hidden.md", false, Some(&md)));
    assert!(entry_is_listed(".hidden.md", true, Some(&md)));
    assert!(entry_is_listed("main.rs", false, None));
    assert!(!entry_is_listed(".git", false, None));
    assert!(entry_is_listed(".git", true, None));
    assert!(NamePattern::new("a**b").is_none());
}

fn entry(name: &str, is_dir: bool) -> Entry {
    let mode = if is_dir { 0o040755 } else { 0o100644 };
    Entry::new(name.to_string(), is_dir, 10, mode, mode, 0)
}

fn names(entries: &[Entry]) -> Vec<String> {
    entries.iter().map(|e| e.name.clone()).collect()
}

#[test]
fn entries_hold_lowercase_sort_names() {
    let e = Entry::new("ReadMe.MD".to_string(), false, 512, 0o100755, 0o100755, 7);
    assert_eq!(e.sort_name, "readme.md");
    assert!(e.is_exec);
    assert_eq!(e.size, 512);
    assert_eq!(e.permissions, "-rwxr-xr-x");
    let d = Entry::new("Docs".to_string(), true, 4096, 0o040755, 0o040755, 7);
    assert_eq!(d.size, 0);
    assert!(!d.is_exec);
}

#[test]
fn directories_first_then_files_alphabetically() {
    let input = vec![
        entry("zeta.txt", false),
        entry("src", true),
        entry("Alpha.txt", false),
        entry("build", true),
        entry("beta.txt", false),
    ];
    let ordered = order_entries(input, true);
    assert_eq!(names(&ordered), vec!["build", "src", "Alpha.txt", "beta.txt", "zeta.txt"]);
}

#[test]
fn hidden_directories_leave_only_files() {
    let input = vec![entry("b", false), entry("dir", true), entry("a", false)];
    let ordered = order_entries(input, false);
    assert_eq!(names(&ordered), vec!["a", "b"]);
}

#[test]
fn equal_sort_names_keep_their_order() {
    let input = vec![entry("B", false), entry("a", false), entry("b", false), entry("A", false)];
    let ordered = order_entries(input, true);
    assert_eq!(names(&ordered), vec!["a", "A", "B", "b"]);
}

#[test]
fn ordering_twice_changes_nothing() {
    let input = vec![entry("x", false), entry("d", true), entry("c", false), entry("C", false)];
    let once = order_entries(input, true);
    let once_names = names(&once);
    let twice = order_entries(once, true);
    assert_eq!(names(&twice), once_names);
}

#[test]
fn colored_text() {
    assert_eq!(colored("abc", "32"), "\x1b[32mabc\x1b[0m");
}

#[test]
fn entry_lines() {
    let colors = Colors::default();
    let file = Entry::new("notes.txt".to_string(), false, 1536, 0o100644, 0o100644, 0);
    let line = entry_line(&file, true, &colors, "5 Mar 2024", "3:07 PM");
    assert_eq!(
        line,
        "-rw-r--r-- \x1b[32m    1.5K \x1b[0m\x1b[34m 5 Mar 2024 \x1b[0m\x1b[34m 3:07 PM \x1b[0m\x1b[38;5;250mnotes.txt\x1b[0m"
    );
    let dir = Entry::new("src".to_string(), true, 0, 0o040755, 0o040755, 0);
    let line = entry_line(&dir, false, &colors, "?", "?");
    assert_eq!(
        line,
        "\x1b[32m       - \x1b[0m\x1b[34m          ? \x1b[0m\x1b[34m       ? \x1b[0m\x1b[33msrc\x1b[0m"
    );
    let exe = Entry::new("run".to_string(), false, 42, 0o100755, 0o100755, 0);
    let line = entry_line(&exe, false, &colors, "1 Jan 1970", "12:00 AM");
    assert!(line.ends_with("\x1b[32mrun\x1b[0m"));
    assert!(line.starts_with("\x1b[32m     42B \x1b[0m"));
}

#[test]
fn printed_lines_follow_listing_order() {
    let colors = Colors::default();
    let input = vec![entry("b.txt", false), entry("lib", true), entry("a.txt", false)];
    let lines = print_entries(input, true, false, &colors);
    assert_eq!(lines.len(), 3);
    assert!(lines[0].ends_with("\x1b[33mlib\x1b[0m"));
    assert!(lines[1].ends_with("a.txt\x1b[0m"));
    assert!(lines[2].ends_with("b.txt\x1b[0m"));
}

#[test]
fn unknown_times_show_a_question_mark() {
    assert_eq!(text_or_unknown(None), "?");
    assert_eq!(text_or_unknown(Some("1 Jan 2000".to_string())), "1 Jan 2000");
    assert_eq!(format_date(i64::MAX), "?");
}

#[test]
fn plans_for_the_command_line_path() {
    assert!(matches!(plan_for_path(PathKind::Directory, "src"), Plan::ListPath));
    assert!(matches!(plan_for_path(PathKind::File, "Cargo.toml"), Plan::ShowPath));
    assert!(matches!(plan_for_path(PathKind::Absent, "*.md"), Plan::ExpandGlob));
    assert!(matches!(plan_for_path(PathKind::Absent, "nothing"), Plan::Missing));
    assert!(matches!(plan_for_glob(true, false), GlobPlan::ListTarget));
    assert!(matches!(plan_for_glob(false, true), GlobPlan::ListCurrent));
    assert!(matches!(plan_for_glob(false, false), GlobPlan::Missing));
}

#[test]
fn dates_in_range_are_rendered() {
    let date = format_date(86_400 * 365);
    assert!(date.ends_with("1970") || date.ends_with("1971"), "{}", date);
    assert!(date.chars().count() >= 10, "{}", date);
    let time = lx::render::format_time(0);
    assert!(time.ends_with(" AM") || time.ends_with(" PM"), "{}", time);
    assert!(time.chars().count() >= 7, "{}", time);
    assert_eq!(lx::render::format_time(i64::MIN), "?");
}

#[test]
fn chrono_range_boundaries() {
    assert_ne!(format_date(-8_334_601_228_800), "?");
    assert_eq!(format_date(-8_334_601_228_801), "?");
    assert_ne!(format_date(8_210_266_876_799), "?");
    assert_eq!(format_date(8_210_266_876_800), "?");
    assert_ne!(lx::render::format_time(8_210_266_876_799), "?");
    assert_eq!(lx::render::format_time(8_210_266_876_800), "?");
}

fn is_date_shape(t: &str) -> bool {
    let parts: Vec<&str> = t.split(' ').collect();
    if parts.len() != 3 {
        return false;
    }
    let months = ["Jan", "Feb", "Mar", "Apr", "May", "Jun", "Jul", "Aug", "Sep", "Oct", "Nov", "Dec"];
    let day_ok = !parts[0].starts_with('0') && matches!(parts[0].parse::<u32>(), Ok(1..=31));
    let year = parts[2];
    let year_ok = (year.len() == 4 && year.chars().all(|c| c.is_ascii_digit()))
        || (year.len() >= 5
            && (year.starts_with('+') || year.starts_with('-'))
            && year[1..].chars().all(|c| c.is_ascii_digit()));
    day_ok && months.contains(&parts[1]) && year_ok
}

fn is_clock_shape(t: &str) -> bool {
    let (hm, ampm) = match t.split_once(' ') {
        Some(p) => p,
        None => return false,
    };
    let (h, m) = match hm.split_once(':') {
        Some(p) => p,
        None => return false,
    };
    (ampm == "AM" || ampm == "PM")
        && !h.starts_with('0')
        && matches!(h.parse::<u32>(), Ok(1..=12))
        && m.len() == 2
        && matches!(m.parse::<u32>(), Ok(0..=59))
}

#[test]
fn date_and_time_texts_have_their_documented_shape() {
    for secs in [0i64, 1_700_000_000, -1, -86_400 * 400_000, 253_402_300_800, 8_210_266_876_799, -8_334_601_228_800] {
        let date = format_date(secs);
        let time = lx::render::format_time(secs);
        assert!(is_date_shape(&date), "{} gives {}", secs, date);
        assert!(is_clock_shape(&time), "{} gives {}", secs, time);
    }
}

#[test]
fn printed_line_has_date_then_time() {
    let colors = Colors::default();
    let e = Entry::new("f".to_string(), false, 1, 0o100644, 0o100644, 1_700_000_000);
    let line = lx::render::print_entry(&e, false, &colors);
    let expected = entry_line(&e, false, &colors, &format_date(1_700_000_000), &lx::render::format_time(1_700_000_000));
    assert_eq!(line, expected);
}

#[test]
fn configuration_from_a_parsed_document() {
    let doc = TomlDocument {
        tables: vec![
            (
                "colors".to_string(),
                Some(TomlTable {
                    entries: vec![
                        ("file".to_string(), TomlScalar::Text("37".to_string())),
                        ("size".to_string(), TomlScalar::Flag(true)),
                    ],
                }),
            ),
            (
                "settings".to_string(),
                Some(TomlTable {
                    entries: vec![
                        ("all".to_string(), TomlScalar::Flag(true)),
                        ("showdir".to_string(), TomlScalar::Other),
                    ],
                }),
            ),
        ],
    };
    let config = lx::config::config_from_document(&doc);
    assert_eq!(config.colors.file, "37");
    assert_eq!(config.colors.size, "32");
    assert!(config.settings.all);
    assert!(!config.settings.permissions);
    assert!(config.settings.showdir);
    let empty = TomlDocument { tables: vec![("colors".to_string(), None)] };
    assert_initial(&lx::config::config_from_document(&empty));
}

fn shown_value(text: &str) -> f64 {
    let (number, unit) = text.split_at(text.len() - 1);
    let scale = match unit {
        "B" => 1.0,
        "K" => 1024.0,
        "M" => 1048576.0,
        "G" => 1073741824.0,
        _ => 1099511627776.0,
    };
    number.parse::<f64>().unwrap() * scale
}

#[test]
fn larger_files_never_show_smaller_sizes() {
    let mut previous = 0.0;
    for b in [0u64, 1, 1023, 1024, 1075, 1076, 1048575, 1048576, 1073741823, 1073741824, 1 << 40, (1 << 50) + 7, u64::MAX] {
        let shown = shown_value(&format_size(b, false));
        assert!(shown >= previous, "{} shows {}", b, shown);
        previous = shown;
    }
}

#[test]
fn dates_are_within_a_day_of_utc() {
    // 1_700_000_000 is 14 Nov 2023 22:13:20 UTC.
    let date = format_date(1_700_000_000);
    assert!(["13 Nov 2023", "14 Nov 2023", "15 Nov 2023"].contains(&date.as_str()), "{}", date);
    let (d, t) = lx::render::format_date_and_time(1_700_000_000);
    assert_eq!(d, date);
    assert_eq!(t, lx::render::format_time(1_700_000_000));
    assert!(t.ends_with(":13 AM") || t.ends_with(":13 PM") || t.ends_with(":43 AM") || t.ends_with(":43 PM")
        || t.ends_with(":28 AM") || t.ends_with(":28 PM") || t.ends_with(":58 AM") || t.ends_with(":58 PM"), "{}", t);
    assert_eq!(lx::render::format_date_and_time(i64::MAX), ("?".to_string(), "?".to_string()));
}
