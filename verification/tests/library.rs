use castit::config::{
    adjust_height, adjust_width, cycle_browser, cycle_terminal, cycle_theme, themes,
    toggle_language, Config,
};
use castit::desktop::{
    application_dirs, build_catalog, dedup_by_name, parse_desktop_entry, sort_by_lowercase_name,
    strip_field_codes,
};
use castit::files::{display_path, go_into_query, go_up_query, parse_path_query, sort_listing};
use castit::i18n::translate;
use castit::models::{AppEntry, FileEntry};
use castit::runner::{
    available_programs, browser_candidates, command_result, command_words, find_terminal,
    search_dirs, terminal_candidates, terminal_launch,
};
use castit::search::{
    file_matches, launcher_matches, rank_names, rank_scores, QUERY_LIMIT, RESULT_LIMIT, WORD_LIMIT,
};
use castit::web::web_search_url;
use nucleo_matcher::pattern::{CaseMatching, Normalization, Pattern};
use nucleo_matcher::{Config as MConfig, Matcher, Utf32Str};

fn app(name: &str, command: &str) -> AppEntry {
    AppEntry {
        name: name.to_string(),
        command: command.to_string(),
        icon: None,
        icon_path: None,
        description: None,
    }
}

fn file(name: &str, is_dir: bool) -> FileEntry {
    FileEntry {
        name: name.to_string(),
        path: format!("/home/u/{}", name),
        is_dir,
        icon_path: None,
    }
}

fn strings(v: &[&str]) -> Vec<String> {
    v.iter().map(|s| s.to_string()).collect()
}

fn nucleo_score(query: &str, hay: &str) -> Option<u32> {
    let mut m = Matcher::new(MConfig::DEFAULT);
    let p = Pattern::parse(query, CaseMatching::Ignore, Normalization::Smart);
    let mut buf = Vec::new();
    p.score(Utf32Str::new(hay, &mut buf), &mut m)
}

// ---------------------------------------------------------------------------
// Exec field codes
// ---------------------------------------------------------------------------

#[test]
fn field_codes_are_stripped() {
    assert_eq!(strip_field_codes("firefox %u"), "firefox");
    assert_eq!(strip_field_codes("code --new-window %F"), "code --new-window");
    assert_eq!(strip_field_codes("  app %i %c %k  "), "app");
}

#[test]
fn field_code_edge_cases() {
    assert_eq!(strip_field_codes("%"), "");
    assert_eq!(strip_field_codes("a%%b"), "ab");
    assert_eq!(strip_field_codes("100%"), "100");
    assert_eq!(strip_field_codes(""), "");
    assert!(!strip_field_codes("x %U %% y%").contains('%'));
}

// ---------------------------------------------------------------------------
// .desktop parsing
// ---------------------------------------------------------------------------

#[test]
fn desktop_entry_is_parsed() {
    let text = "[Desktop Entry]\nType=Application\nName=Firefox\nName[es]=Zorro\nExec=firefox %u\nIcon=firefox\nComment=Browse the web\n";
    let e = parse_desktop_entry(text).expect("an application");
    assert_eq!(e.name, "Firefox");
    assert_eq!(e.command, "firefox");
    assert_eq!(e.icon.as_deref(), Some("firefox"));
    assert_eq!(e.icon_path, None);
    assert_eq!(e.description.as_deref(), Some("Browse the web"));
}

#[test]
fn desktop_entry_trims_lines_and_values() {
    let text = "  [Desktop Entry]  \r\n Type = Application \r\n Name = Files \r\n Exec = nautilus --new-window %U \r\n";
    let e = parse_desktop_entry(text).expect("an application");
    assert_eq!(e.name, "Files");
    assert_eq!(e.command, "nautilus --new-window");
    assert_eq!(e.icon, None);
    assert_eq!(e.description, None);
}

#[test]
fn hidden_entries_are_skipped() {
    let base = "[Desktop Entry]\nType=Application\nName=A\nExec=a\n";
    assert!(parse_desktop_entry(&format!("{}NoDisplay=true\n", base)).is_none());
    assert!(parse_desktop_entry(&format!("{}Hidden=TRUE\n", base)).is_none());
    assert!(parse_desktop_entry(&format!("{}NoDisplay=false\n", base)).is_some());
    assert!(parse_desktop_entry(&format!("{}Hidden=no\n", base)).is_some());
}

#[test]
fn non_applications_are_skipped() {
    assert!(parse_desktop_entry("[Desktop Entry]\nType=Link\nName=A\nExec=a\n").is_none());
    assert!(parse_desktop_entry("[Desktop Entry]\nName=A\nExec=a\n").is_none());
    assert!(parse_desktop_entry("[Desktop Entry]\nType=Application\nExec=a\n").is_none());
    assert!(parse_desktop_entry("[Desktop Entry]\nType=Application\nName=A\n").is_none());
    assert!(parse_desktop_entry("").is_none());
}

#[test]
fn only_the_desktop_entry_section_counts() {
    let text = "Name=Before\n[Desktop Entry]\nType=Application\nName=Editor\nExec=edit\n[Desktop Action new]\nName=New Window\nExec=edit --new\n";
    let e = parse_desktop_entry(text).expect("an application");
    assert_eq!(e.name, "Editor");
    assert_eq!(e.command, "edit");
    let none = "[Other]\nType=Application\nName=X\nExec=x\n";
    assert!(parse_desktop_entry(none).is_none());
}

#[test]
fn later_keys_override_earlier_ones() {
    let text = "[Desktop Entry]\nType=Application\nName=One\nName=Two\nExec=a=b\n";
    let e = parse_desktop_entry(text).expect("an application");
    assert_eq!(e.name, "Two");
    assert_eq!(e.command, "a=b");
}

#[test]
fn application_dirs_user_first() {
    let dirs = application_dirs(Some("/home/u"), None);
    assert_eq!(
        dirs,
        strings(&[
            "/home/u/.local/share/applications",
            "/usr/local/share/applications",
            "/usr/share/applications"
        ])
    );
    let dirs = application_dirs(None, Some("/opt/share"));
    assert_eq!(dirs, strings(&["/opt/share/applications"]));
    let dirs = application_dirs(None, Some(""));
    assert_eq!(dirs, strings(&["/applications"]));
}

#[test]
fn catalog_dedups_first_wins_and_sorts_ignoring_case() {
    let found = vec![
        app("banana", "user-banana"),
        app("Apple", "apple"),
        app("banana", "system-banana"),
        app("cherry", "cherry"),
    ];
    let c = build_catalog(&found);
    let names: Vec<&str> = c.iter().map(|e| e.name.as_str()).collect();
    assert_eq!(names, vec!["Apple", "banana", "cherry"]);
    assert_eq!(c[1].command, "user-banana");
}

#[test]
fn sorting_uses_the_lowercase_names() {
    // Byte order would put "Banana" first; the lowercase order puts "apple" first.
    let v = vec![app("Banana", "b"), app("apple", "a")];
    let s = sort_by_lowercase_name(&v);
    let names: Vec<&str> = s.iter().map(|e| e.name.as_str()).collect();
    assert_eq!(names, vec!["apple", "Banana"]);
    // Non-ASCII capitals are lowercased too.
    let v = vec![app("Zulu", "z"), app("ÉCOLE", "e"), app("éa", "a")];
    let s = sort_by_lowercase_name(&v);
    let names: Vec<&str> = s.iter().map(|e| e.name.as_str()).collect();
    assert_eq!(names, vec!["Zulu", "éa", "ÉCOLE"]);
}

#[test]
fn equal_lowercase_names_keep_their_order() {
    let v = vec![app("a", "first"), app("A", "second"), app("a", "third")];
    let d = dedup_by_name(&v);
    assert_eq!(d.len(), 2);
    let s = sort_by_lowercase_name(&d);
    assert_eq!(s[0].command, "first");
    assert_eq!(s[1].command, "second");
}

// ---------------------------------------------------------------------------
// Paths
// ---------------------------------------------------------------------------

#[test]
fn path_queries_split_into_parent_and_filter() {
    assert_eq!(
        parse_path_query("/usr/sh", "/home/u"),
        Some(("/usr/".to_string(), "sh".to_string()))
    );
    assert_eq!(
        parse_path_query("~/Doc", "/home/u"),
        Some(("/home/u/".to_string(), "Doc".to_string()))
    );
    assert_eq!(
        parse_path_query("~", "/home/u"),
        Some(("/home/".to_string(), "u".to_string()))
    );
    assert_eq!(parse_path_query("/", "/home/u"), Some(("/".to_string(), "".to_string())));
    assert_eq!(parse_path_query("abc", "/home/u"), None);
    assert_eq!(parse_path_query("", "/home/u"), None);
    assert_eq!(parse_path_query("~x", "nohome"), None);
}

#[test]
fn listings_put_directories_first() {
    let v = vec![file("b.txt", false), file("Zeta", true), file("a.txt", false), file("alpha", true)];
    let s = sort_listing(&v);
    let names: Vec<&str> = s.iter().map(|e| e.name.as_str()).collect();
    assert_eq!(names, vec!["alpha", "Zeta", "a.txt", "b.txt"]);
}

#[test]
fn folder_navigation_queries() {
    assert_eq!(display_path("/home/u/Docs", "/home/u"), "~/Docs");
    assert_eq!(display_path("/etc", "/home/u"), "/etc");
    assert_eq!(display_path("/home/u/Docs", ""), "/home/u/Docs");
    assert_eq!(go_up_query("~/Docs/work/", "/home/u"), Some("~/Docs/".to_string()));
    assert_eq!(go_up_query("/home/u/Docs/", "/home/u"), Some("~/".to_string()));
    assert_eq!(go_up_query("/etc/x", "/home/u"), Some("/etc/".to_string()));
    assert_eq!(go_up_query("~", "/home/u"), None);
    assert_eq!(go_into_query("/home/u/Docs", "/home/u"), "~/Docs/");
    assert_eq!(go_into_query("/srv", "/home/u"), "/srv/");
}

// ---------------------------------------------------------------------------
// Fuzzy search
// ---------------------------------------------------------------------------

#[test]
fn fuzzy_score_is_nucleos() {
    for (q, h) in [("fire", "Firefox"), ("ff", "Firefox"), ("xyz", "Firefox"), ("term", "Terminal"), ("FIRE fox", "Firefox")] {
        let r = rank_names(q, &vec![h.to_string()], &vec![true]);
        assert_eq!(r.first().map(|x| x.1), nucleo_score(q, h));
    }
    assert!(rank_names("xyz", &vec!["Firefox".to_string()], &vec![true]).is_empty());
    assert!(rank_names("fire", &vec!["Firefox".to_string()], &vec![false]).is_empty());
}

#[test]
fn launcher_results_are_the_best_matches() {
    let entries = vec![
        app("Files", "nautilus"),
        app("Firefox", "firefox"),
        app("Terminal", "term"),
        app("Fish", "fish"),
    ];
    let r = launcher_matches("fi", &entries);
    assert!(r.iter().all(|(e, s)| Some(*s) == nucleo_score("fi", &e.name)));
    assert!(r.iter().all(|(e, _)| e.name != "Terminal"));
    assert_eq!(r.len(), 3);
    for w in r.windows(2) {
        assert!(w[0].1 >= w[1].1);
    }
    let r = launcher_matches("terminal", &entries);
    assert_eq!(r.len(), 1);
    assert_eq!(r[0].0.name, "Terminal");
    assert!(launcher_matches("", &entries).is_empty());
}

#[test]
fn launcher_results_are_limited_and_stable() {
    let entries: Vec<AppEntry> = (0..12).map(|i| app(&format!("app{}", i), "x")).collect();
    let r = launcher_matches("app", &entries);
    assert_eq!(r.len(), RESULT_LIMIT);
    // Equal scores keep the list order.
    let s0 = r[0].1;
    let names: Vec<&str> = r.iter().filter(|(_, s)| *s == s0).map(|(e, _)| e.name.as_str()).collect();
    let mut sorted = names.clone();
    sorted.sort_by_key(|n| entries.iter().position(|e| e.name == *n).unwrap());
    assert_eq!(names, sorted);
}

#[test]
fn absolute_icon_paths_are_used_directly() {
    let mut e = app("Tool", "tool");
    e.icon = Some("/opt/tool.png".to_string());
    let mut f = app("Other", "other");
    f.icon = Some("other".to_string());
    let r = launcher_matches("o", &vec![e, f]);
    for (x, _) in &r {
        if x.name == "Tool" {
            assert_eq!(x.icon_path.as_deref(), Some("/opt/tool.png"));
        } else {
            assert_eq!(x.icon_path, None);
        }
    }
}

#[test]
fn file_search_hides_dotfiles() {
    let entries = vec![file(".config", true), file("config.toml", false), file("notes", false)];
    let r = file_matches("", &entries);
    let names: Vec<&str> = r.iter().map(|(e, _)| e.name.as_str()).collect();
    assert_eq!(names, vec!["config.toml", "notes"]);
    assert!(r.iter().all(|(_, s)| *s == 1));
    let r = file_matches("conf", &entries);
    assert!(r.iter().all(|(e, _)| !e.name.starts_with('.')));
    assert_eq!(r.len(), 1);
    let r = file_matches(".conf", &entries);
    assert!(r.iter().any(|(e, _)| e.name == ".config"));
}

#[test]
fn empty_filter_shows_first_eight() {
    let entries: Vec<FileEntry> = (0..10).map(|i| file(&format!("f{}", i), false)).collect();
    let r = file_matches("", &entries);
    assert_eq!(r.len(), 8);
    assert_eq!(r[7].0.name, "f7");
}

// ---------------------------------------------------------------------------
// Runner
// ---------------------------------------------------------------------------

#[test]
fn background_results() {
    assert_eq!(command_result(true, "out".into(), "".into(), "exit status: 0"), Ok("out".to_string()));
    assert_eq!(command_result(true, "".into(), "warn".into(), "exit status: 0"), Ok("warn".to_string()));
    assert_eq!(command_result(true, "".into(), "".into(), "exit status: 0"), Ok("".to_string()));
    assert_eq!(command_result(false, "out".into(), "err".into(), "exit status: 1"), Err("outerr".to_string()));
    assert_eq!(command_result(true, "out\n".into(), "warn\n".into(), "exit status: 0"), Ok("out\nwarn\n".to_string()));
    assert_eq!(command_result(false, "".into(), "err".into(), "exit status: 1"), Err("err".to_string()));
    assert_eq!(command_result(false, "out".into(), "".into(), "exit status: 1"), Err("out".to_string()));
    assert_eq!(
        command_result(false, "".into(), "".into(), "exit status: 2"),
        Err("Process exited with status: exit status: 2".to_string())
    );
}

#[test]
fn terminal_arguments_by_emulator() {
    let avail = strings(&["Auto", "kitty"]);
    let shell = "ls; echo; echo '--- Process finished. Press Enter to close ---'; read -r _";
    let l = terminal_launch("ls", Some("wezterm"), &avail).unwrap();
    assert_eq!(l.program, "wezterm");
    assert_eq!(l.args, strings(&["start", "--", "sh", "-c", shell]));
    let l = terminal_launch("ls", Some("gnome-terminal"), &avail).unwrap();
    assert_eq!(l.args, strings(&["--", "sh", "-c", shell]));
    let l = terminal_launch("ls", None, &avail).unwrap();
    assert_eq!(l.program, "kitty");
    assert_eq!(l.args, strings(&["-e", "sh", "-c", shell]));
}

#[test]
fn no_terminal_is_an_error() {
    let r = terminal_launch("ls", None, &strings(&["Auto"]));
    assert_eq!(
        r.unwrap_err(),
        "No supported terminal emulator (kitty, alacritty, wezterm, gnome-terminal, konsole, xfce4-terminal, xterm) found in PATH."
    );
    assert_eq!(find_terminal(&strings(&["Auto", "xterm", "kitty"])), Some("xterm".to_string()));
    assert_eq!(find_terminal(&Vec::new()), None);
}

#[test]
fn available_programs_follow_the_candidates() {
    let c = terminal_candidates();
    assert_eq!(c.len(), 8);
    assert_eq!(c[0], "ghostty");
    let found: Vec<bool> = c.iter().map(|t| t == "kitty" || t == "xterm").collect();
    assert_eq!(available_programs(&c, &found), strings(&["Auto", "kitty", "xterm"]));
    assert_eq!(browser_candidates().len(), 12);
    assert_eq!(search_dirs("/bin:/usr/bin"), strings(&["/bin", "/usr/bin"]));
    assert_eq!(search_dirs(""), strings(&[""]));
}

#[test]
fn exec_words() {
    assert_eq!(command_words("  gimp   --new  "), strings(&["gimp", "--new"]));
    assert!(command_words("   ").is_empty());
}

// ---------------------------------------------------------------------------
// Settings
// ---------------------------------------------------------------------------

#[test]
fn default_config() {
    let c = Config::default();
    assert_eq!(c.theme.as_deref(), Some("TokyoNight"));
    assert_eq!(c.language.as_deref(), Some("EN"));
    assert_eq!(c.width, Some(800));
    assert_eq!(c.height, Some(500));
    assert_eq!(c.terminal, None);
    assert_eq!(c.browser, None);
}

#[test]
fn theme_cycling() {
    let mut c = Config::default();
    cycle_theme(&mut c, 1);
    assert_eq!(c.theme.as_deref(), Some("TokyoNightStorm"));
    cycle_theme(&mut c, -1);
    assert_eq!(c.theme.as_deref(), Some("TokyoNight"));
    cycle_theme(&mut c, -1);
    assert_eq!(c.theme.as_deref(), Some("Ferra"));
    c.theme = Some("Unknown".into());
    cycle_theme(&mut c, 1);
    assert_eq!(c.theme.as_deref(), Some("TokyoNightStorm"));
    c.theme = None;
    cycle_theme(&mut c, 0);
    assert_eq!(c.theme.as_deref(), Some("Ferra"));
}

#[test]
fn theme_full_cycle_returns() {
    let mut c = Config::default();
    for _ in 0..themes().len() {
        cycle_theme(&mut c, 1);
    }
    assert_eq!(c.theme.as_deref(), Some("TokyoNight"));
}

#[test]
fn terminal_and_browser_cycling() {
    let avail = strings(&["Auto", "kitty", "xterm"]);
    let mut c = Config::default();
    cycle_terminal(&mut c, 1, &avail);
    assert_eq!(c.terminal.as_deref(), Some("kitty"));
    cycle_terminal(&mut c, 1, &avail);
    assert_eq!(c.terminal.as_deref(), Some("xterm"));
    cycle_terminal(&mut c, 1, &avail);
    assert_eq!(c.terminal, None);
    cycle_terminal(&mut c, -1, &avail);
    assert_eq!(c.terminal.as_deref(), Some("xterm"));
    // A configured terminal that is not installed stays reachable.
    c.terminal = Some("foot".into());
    cycle_terminal(&mut c, 1, &avail);
    assert_eq!(c.terminal, None);
    c.browser = None;
    cycle_browser(&mut c, -1, &strings(&["Auto", "firefox"]));
    assert_eq!(c.browser.as_deref(), Some("firefox"));
}

#[test]
fn window_size_steps_and_bounds() {
    let mut c = Config::default();
    adjust_width(&mut c, true);
    assert_eq!(c.width, Some(850));
    c.width = Some(1900);
    adjust_width(&mut c, true);
    assert_eq!(c.width, Some(1920));
    c.width = Some(420);
    adjust_width(&mut c, false);
    assert_eq!(c.width, Some(400));
    c.width = Some(10);
    adjust_width(&mut c, false);
    assert_eq!(c.width, Some(400));
    c.height = None;
    adjust_height(&mut c, false);
    assert_eq!(c.height, Some(450));
    c.height = Some(1070);
    adjust_height(&mut c, true);
    assert_eq!(c.height, Some(1080));
    c.height = Some(u32::MAX);
    adjust_height(&mut c, true);
    assert_eq!(c.height, Some(1080));
    c.width = Some(u32::MAX - 10);
    adjust_width(&mut c, true);
    assert_eq!(c.width, Some(1920));
}

#[test]
fn language_toggles() {
    let mut c = Config::default();
    toggle_language(&mut c);
    assert_eq!(c.language.as_deref(), Some("ES"));
    toggle_language(&mut c);
    assert_eq!(c.language.as_deref(), Some("EN"));
    c.language = Some("FR".into());
    toggle_language(&mut c);
    assert_eq!(c.language.as_deref(), Some("EN"));
    c.language = None;
    toggle_language(&mut c);
    assert_eq!(c.language.as_deref(), Some("ES"));
}

// ---------------------------------------------------------------------------
// Texts
// ---------------------------------------------------------------------------

#[test]
fn translations() {
    assert_eq!(translate("no_results", "ES"), "No se encontraron resultados");
    assert_eq!(translate("no_results", "EN"), "No results found");
    assert_eq!(translate("no_results", "DE"), "No results found");
    assert_eq!(translate("setting_browser", "ES"), "Navegador Web Preferido");
    assert_eq!(translate("launch_tag", "EN"), "⏎ Launch");
    assert_eq!(translate("whatever", "ES"), "whatever");
}

#[test]
fn web_search_urls() {
    assert_eq!(web_search_url("rust docs"), "https://www.google.com/search?q=rust+docs");
    assert_eq!(web_search_url("a&b=c"), "https://www.google.com/search?q=a%26b%3Dc");
    assert_eq!(web_search_url("ñ"), "https://www.google.com/search?q=%C3%B1");
    assert_eq!(web_search_url("A-z_0.~"), "https://www.google.com/search?q=A-z_0.~");
}

#[test]
fn entering_then_going_up_shows_the_holding_folder() {
    let q = go_into_query("/home/u/docs/work", "/home/u");
    assert_eq!(q, "~/docs/work/");
    assert_eq!(go_up_query(&q, "/home/u").as_deref(), Some("~/docs/"));
    let q = go_into_query("/etc/ssh", "/home/u");
    assert_eq!(go_up_query(&q, "/home/u").as_deref(), Some("/etc/"));
    let q = go_into_query("/home/u", "/home/u");
    assert_eq!(q, "~/");
    // A home directory that is only a textual prefix of the folder's name.
    let q = go_into_query("/home/user", "/home/u");
    assert_eq!(q, "~ser/");
    assert_eq!(go_up_query(&q, "/home/u"), None);
}

#[test]
fn ranking_given_scores() {
    let scores = vec![Some(5), None, Some(9), Some(5), Some(1)];
    let r = rank_scores(&scores, &vec![true, true, true, true, false]);
    assert_eq!(r, vec![(2, 9), (0, 5), (3, 5)]);
    let many: Vec<Option<u32>> = (0..12).map(|i| Some(i)).collect();
    let r = rank_scores(&many, &vec![true; 12]);
    assert_eq!(r.len(), RESULT_LIMIT);
    assert_eq!(r[0], (11, 11));
}

#[test]
fn descriptions_are_searched_too() {
    let mut e = app("Nautilus", "nautilus");
    e.description = Some("Access and organize files".to_string());
    let r = launcher_matches("organize", &vec![e.clone(), app("Firefox", "firefox")]);
    assert_eq!(r.len(), 1);
    assert_eq!(r[0].0.name, "Nautilus");
    assert_eq!(Some(r[0].1), nucleo_score("organize", "Access and organize files"));
    let by_name = launcher_matches("naut", &vec![e]);
    assert_eq!(Some(by_name[0].1), nucleo_score("naut", "Nautilus"));
}

#[test]
fn overlong_words_match_nothing() {
    // A text of many short words is scored, however long it is.
    let many = "fi ".repeat(600);
    assert!(many.chars().count() > 1000);
    let r = rank_names(&many, &vec!["Firefox".to_string()], &vec![true]);
    assert_eq!(r.len(), 1);
    assert_eq!(Some(r[0].1), nucleo_score(&many, "Firefox"));
    // One word longer than the limit is not.
    let long = "a".repeat(WORD_LIMIT + 1);
    let hay = "a".repeat(WORD_LIMIT + 5);
    assert!(rank_names(&long, &vec![hay.clone()], &vec![true]).is_empty());
    // An escaped space joins two words into one.
    let joined = format!("{}\\ {}", "a".repeat(WORD_LIMIT / 2), "a".repeat(WORD_LIMIT / 2 + 1));
    assert!(rank_names(&joined, &vec![hay.clone()], &vec![true]).is_empty());
    let fits = "a".repeat(WORD_LIMIT);
    assert_eq!(rank_names(&fits, &vec![hay], &vec![true]).len(), 1);
    assert!(QUERY_LIMIT >= 1_000_000);
}

#[test]
fn terminal_choice_round_trip() {
    let avail = strings(&["Auto", "ghostty", "kitty", "xterm"]);
    for start in [None, Some("ghostty"), Some("kitty"), Some("xterm")] {
        for dir in [1, -1] {
            let mut c = Config::default();
            c.terminal = start.map(|s| s.to_string());
            cycle_terminal(&mut c, dir, &avail);
            cycle_terminal(&mut c, -dir, &avail);
            assert_eq!(c.terminal.as_deref(), start);
        }
    }
}
