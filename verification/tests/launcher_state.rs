use castit::config::Config;
use castit::models::{AppEntry, FileEntry};
use castit::state::{CastIt, Effect, Environment, Message, Mode, RunnerState};

fn app(name: &str, command: &str) -> AppEntry {
    AppEntry {
        name: name.to_string(),
        command: command.to_string(),
        icon: Some(name.to_lowercase()),
        icon_path: None,
        description: None,
    }
}

fn env() -> Environment {
    Environment {
        home: Some("/home/u".to_string()),
        terminals: vec!["Auto".to_string(), "kitty".to_string()],
        browsers: vec!["Auto".to_string(), "firefox".to_string()],
    }
}

fn launcher() -> CastIt {
    CastIt::new(
        vec![app("Files", "nautilus --new-window"), app("Firefox", "firefox"), app("Terminal", "kgx")],
        Config::default(),
    )
}

fn type_query(s: &mut CastIt, q: &str) -> Vec<Effect> {
    s.update(Message::QueryChanged(q.to_string()), &env())
}

#[test]
fn starts_in_the_launcher() {
    let s = launcher();
    assert_eq!(s.mode, Mode::Launcher);
    assert_eq!(s.query, "");
    assert!(s.filtered_entries.is_empty());
    assert_eq!(s.runner_state, RunnerState::Idle);
}

#[test]
fn query_prefixes_choose_the_mode() {
    let mut s = launcher();
    type_query(&mut s, "??");
    assert_eq!(s.mode, Mode::Help);
    type_query(&mut s, "..");
    assert_eq!(s.mode, Mode::Settings);
    type_query(&mut s, "> ls");
    assert_eq!(s.mode, Mode::CommandRunner);
    type_query(&mut s, "? rust");
    assert_eq!(s.mode, Mode::WebSearch);
    type_query(&mut s, "term");
    assert_eq!(s.mode, Mode::Launcher);
    assert_eq!(s.filtered_entries.len(), 1);
    assert_eq!(s.filtered_entries[0].0.name, "Terminal");
}

#[test]
fn launcher_asks_for_icons_of_its_results() {
    let mut s = launcher();
    let fx = type_query(&mut s, "fi");
    assert_eq!(fx.len(), 1);
    match &fx[0] {
        Effect::ResolveAppIcons { requests } => {
            assert_eq!(requests.len(), s.filtered_entries.len());
            for r in requests {
                assert_eq!(Some(r.name.clone()), s.filtered_entries[r.slot].0.icon);
            }
        }
        other => panic!("unexpected {:?}", other),
    }
    s.set_app_icon(0, "/icons/x.png".to_string());
    assert_eq!(s.filtered_entries[0].0.icon_path.as_deref(), Some("/icons/x.png"));
    s.set_app_icon(99, "/icons/y.png".to_string());
}

#[test]
fn enter_launches_the_selected_app_and_quits() {
    let mut s = launcher();
    type_query(&mut s, "firefox");
    let fx = s.update(Message::Submit, &env());
    assert_eq!(fx.len(), 3);
    assert!(matches!(fx[0], Effect::SaveConfig));
    match &fx[1] {
        Effect::Launch { argv } => assert_eq!(argv, &vec!["firefox".to_string()]),
        other => panic!("unexpected {:?}", other),
    }
    assert!(matches!(fx[2], Effect::Exit));
    assert_eq!(s.config.history, vec![("firefox".to_string(), 1)]);
}

#[test]
fn enter_with_nothing_selected_does_nothing() {
    let mut s = launcher();
    type_query(&mut s, "zzzz");
    assert!(s.filtered_entries.is_empty());
    assert!(s.update(Message::Submit, &env()).is_empty());
}

#[test]
fn select_entry_launches() {
    let mut s = launcher();
    type_query(&mut s, "fi");
    let n = s.filtered_entries.len();
    let fx = s.update(Message::SelectEntry(n - 1), &env());
    assert_eq!(s.selected_index, n - 1);
    assert!(matches!(fx.last(), Some(Effect::Exit)));
}

#[test]
fn arrows_move_within_the_results() {
    let mut s = launcher();
    type_query(&mut s, "fi");
    let n = s.filtered_entries.len();
    assert!(n >= 2);
    for _ in 0..10 {
        s.update(Message::ArrowDown, &env());
    }
    assert_eq!(s.selected_index, n - 1);
    let fx = s.update(Message::ArrowUp, &env());
    assert_eq!(s.selected_index, n - 2);
    match &fx[0] {
        Effect::SnapList { index, total } => {
            assert_eq!(*index, n - 2);
            assert_eq!(*total, n);
        }
        other => panic!("unexpected {:?}", other),
    }
    for _ in 0..10 {
        s.update(Message::ArrowUp, &env());
    }
    assert_eq!(s.selected_index, 0);
}

#[test]
fn commands_run_in_the_background() {
    let mut s = launcher();
    type_query(&mut s, ">  echo hi ");
    let fx = s.update(Message::Submit, &env());
    assert_eq!(s.runner_state, RunnerState::Running { command: "echo hi".to_string() });
    assert_eq!(s.query, "> ");
    match &fx[0] {
        Effect::RunInBackground { command } => assert_eq!(command, "echo hi"),
        other => panic!("unexpected {:?}", other),
    }
    s.update(
        Message::CommandFinished { command: "echo hi".to_string(), result: Ok("hi\n".to_string()) },
        &env(),
    );
    assert_eq!(
        s.runner_state,
        RunnerState::Finished { command: "echo hi".to_string(), output: "hi\n".to_string() }
    );
    s.update(
        Message::CommandFinished { command: "false".to_string(), result: Err("boom".to_string()) },
        &env(),
    );
    assert_eq!(s.runner_state, RunnerState::Failed { command: "false".to_string(), error: "boom".to_string() });
    type_query(&mut s, ">");
    assert_eq!(s.runner_state, RunnerState::Idle);
    assert!(s.update(Message::Submit, &env()).is_empty());
}

#[test]
fn commands_run_in_a_terminal() {
    let mut s = launcher();
    type_query(&mut s, "> htop");
    let fx = s.update(Message::SubmitInTerminal, &env());
    assert_eq!(fx.len(), 2);
    match &fx[0] {
        Effect::RunInTerminal { launch } => {
            assert_eq!(launch.program, "kitty");
            assert_eq!(launch.args[0], "-e");
        }
        other => panic!("unexpected {:?}", other),
    }
    assert!(matches!(fx[1], Effect::Exit));
    let none = Environment { home: None, terminals: vec!["Auto".to_string()], browsers: vec![] };
    let fx = s.update(Message::SubmitInTerminal, &none);
    assert_eq!(fx.len(), 1);
    assert!(matches!(fx[0], Effect::Exit));
    type_query(&mut s, "htop");
    assert!(s.update(Message::SubmitInTerminal, &env()).is_empty());
}

#[test]
fn web_search_opens_the_browser() {
    let mut s = launcher();
    s.config.browser = Some("firefox".to_string());
    type_query(&mut s, "? rust traits");
    let fx = s.update(Message::Submit, &env());
    match &fx[0] {
        Effect::OpenUrl { url, browser } => {
            assert_eq!(url, "https://www.google.com/search?q=rust+traits");
            assert_eq!(browser.as_deref(), Some("firefox"));
        }
        other => panic!("unexpected {:?}", other),
    }
    assert!(matches!(fx[1], Effect::Exit));
    type_query(&mut s, "?  ");
    assert!(s.update(Message::Submit, &env()).is_empty());
}

#[test]
fn settings_navigation_and_changes() {
    let mut s = launcher();
    type_query(&mut s, "..");
    for _ in 0..10 {
        s.update(Message::ArrowDown, &env());
    }
    assert_eq!(s.selected_setting, 6);
    let fx = s.update(Message::ArrowRight, &env());
    assert_eq!(s.config.browser.as_deref(), Some("firefox"));
    assert!(matches!(fx[0], Effect::SaveConfig));
    for _ in 0..4 {
        s.update(Message::ArrowUp, &env());
    }
    assert_eq!(s.selected_setting, 2);
    let fx = s.update(Message::ArrowLeft, &env());
    assert!(matches!(fx[0], Effect::AdjustOpacity { up: false }));
    s.update(Message::ArrowUp, &env());
    s.update(Message::ArrowRight, &env());
    assert_eq!(s.config.terminal.as_deref(), Some("kitty"));
    s.update(Message::ArrowUp, &env());
    s.update(Message::ArrowLeft, &env());
    assert_eq!(s.config.theme.as_deref(), Some("Ferra"));
    for _ in 0..5 {
        s.update(Message::ArrowUp, &env());
    }
    assert_eq!(s.selected_setting, 0);
    for _ in 0..3 {
        s.update(Message::ArrowDown, &env());
    }
    s.update(Message::ArrowRight, &env());
    assert_eq!(s.config.width, Some(850));
    s.update(Message::ArrowDown, &env());
    s.update(Message::ArrowLeft, &env());
    assert_eq!(s.config.height, Some(450));
    s.update(Message::ArrowDown, &env());
    s.update(Message::ArrowLeft, &env());
    assert_eq!(s.config.language.as_deref(), Some("ES"));
}

#[test]
fn settings_do_not_change_outside_settings_mode() {
    let mut s = launcher();
    type_query(&mut s, "fi");
    s.update(Message::ArrowLeft, &env());
    s.update(Message::ArrowRight, &env());
    assert_eq!(s.config.theme.as_deref(), Some("TokyoNight"));
    assert_eq!(s.config.width, Some(800));
}

#[test]
fn help_scrolls() {
    let mut s = launcher();
    type_query(&mut s, "??");
    assert!(matches!(s.update(Message::ArrowDown, &env())[0], Effect::ScrollHelp { down: true }));
    assert!(matches!(s.update(Message::ArrowUp, &env())[0], Effect::ScrollHelp { down: false }));
}

fn listing() -> Vec<FileEntry> {
    vec![
        FileEntry { name: "notes.md".into(), path: "/home/u/notes.md".into(), is_dir: false, icon_path: None },
        FileEntry { name: ".bashrc".into(), path: "/home/u/.bashrc".into(), is_dir: false, icon_path: None },
        FileEntry { name: "Docs".into(), path: "/home/u/Docs".into(), is_dir: true, icon_path: None },
    ]
}

#[test]
fn browsing_files_lists_then_filters() {
    let mut s = launcher();
    let fx = type_query(&mut s, "~/");
    assert_eq!(s.mode, Mode::FileBrowser);
    assert_eq!(fx.len(), 1);
    let path = match &fx[0] {
        Effect::ListDirectory { path } => path.clone(),
        other => panic!("unexpected {:?}", other),
    };
    assert_eq!(path, "/home/u/");
    let fx = s.directory_listed(path, listing(), &env());
    let names: Vec<&str> = s.filtered_files.iter().map(|(e, _)| e.name.as_str()).collect();
    assert_eq!(names, vec!["Docs", "notes.md"]);
    match &fx[0] {
        Effect::ResolveFileIcons { requests } => {
            assert_eq!(requests.len(), 2);
            assert_eq!(requests[0].name, "folder");
            assert_eq!(requests[1].name, "text-x-generic");
        }
        other => panic!("unexpected {:?}", other),
    }
    // Same directory: no new listing.
    let fx = type_query(&mut s, "~/no");
    assert!(matches!(fx[0], Effect::ResolveFileIcons { .. }));
    assert_eq!(s.filtered_files.len(), 1);
    assert_eq!(s.filtered_files[0].0.name, "notes.md");
    s.set_file_icon(0, "/icons/text.svg".into());
    assert_eq!(s.filtered_files[0].0.icon_path.as_deref(), Some("/icons/text.svg"));
}

#[test]
fn browsing_into_and_out_of_folders() {
    let mut s = launcher();
    let fx = type_query(&mut s, "~/");
    if let Effect::ListDirectory { path } = &fx[0] {
        s.directory_listed(path.clone(), listing(), &env());
    }
    assert_eq!(s.filtered_files[0].0.name, "Docs");
    let fx = s.update(Message::ArrowRight, &env());
    assert_eq!(s.query, "~/Docs/");
    assert!(matches!(fx[0], Effect::ListDirectory { .. }));
    assert!(matches!(fx.last(), Some(Effect::MoveCursorToEnd)));
    s.directory_listed("/home/u/Docs/".into(), vec![], &env());
    let fx = s.update(Message::ArrowLeft, &env());
    assert_eq!(s.query, "~/");
    assert!(matches!(fx.last(), Some(Effect::MoveCursorToEnd)));
}

#[test]
fn enter_opens_the_selected_file() {
    let mut s = launcher();
    let fx = type_query(&mut s, "~/");
    if let Effect::ListDirectory { path } = &fx[0] {
        s.directory_listed(path.clone(), listing(), &env());
    }
    s.update(Message::ArrowDown, &env());
    let fx = s.update(Message::Submit, &env());
    match &fx[0] {
        Effect::OpenPath { path } => assert_eq!(path, "/home/u/notes.md"),
        other => panic!("unexpected {:?}", other),
    }
    assert!(matches!(fx[1], Effect::Exit));
}

#[test]
fn preview_toggles_only_with_results() {
    let mut s = launcher();
    let fx = type_query(&mut s, "~/");
    if let Effect::ListDirectory { path } = &fx[0] {
        s.directory_listed(path.clone(), listing(), &env());
    }
    s.update(Message::TogglePreview, &env());
    assert!(s.preview_active);
    assert!(matches!(s.update(Message::ScrollPreviewDown, &env())[0], Effect::ScrollPreview { down: true }));
    assert!(matches!(s.update(Message::ScrollPreviewUp, &env())[0], Effect::ScrollPreview { down: false }));
    s.update(Message::TogglePreview, &env());
    assert!(!s.preview_active);
    assert!(s.update(Message::ScrollPreviewDown, &env()).is_empty());
    type_query(&mut s, "fi");
    s.update(Message::TogglePreview, &env());
    assert!(!s.preview_active);
}

#[test]
fn clear_query_resets() {
    let mut s = launcher();
    type_query(&mut s, "> ls");
    s.update(Message::Submit, &env());
    let fx = s.update(Message::ClearQuery, &env());
    assert_eq!(fx.len(), 1);
    match &fx[0] {
        Effect::ResolveAppIcons { requests } => assert!(requests.is_empty()),
        other => panic!("unexpected {:?}", other),
    }
    assert_eq!(s.query, "");
    assert_eq!(s.mode, Mode::Launcher);
    assert_eq!(s.runner_state, RunnerState::Idle);
    assert!(s.filtered_entries.is_empty() && s.filtered_files.is_empty());
}

#[test]
fn escape_quits_everywhere() {
    for q in ["", "fi", "> ls", "..", "??", "~/", "? x"] {
        let mut s = launcher();
        type_query(&mut s, q);
        let fx = s.update(Message::Escape, &env());
        assert_eq!(fx.len(), 1);
        assert!(matches!(fx[0], Effect::Exit));
    }
}

#[test]
fn focus_returns_to_the_search_bar() {
    let mut s = launcher();
    assert!(matches!(s.update(Message::WindowFocused, &env())[0], Effect::FocusInput));
}

#[test]
fn empty_query_shows_favorites_then_most_launched() {
    let mut s = launcher();
    s.config.favorites = vec!["kgx".to_string()];
    s.config.history = vec![
        ("firefox".to_string(), 2),
        ("nautilus --new-window".to_string(), 5),
        ("kgx".to_string(), 9),
    ];
    let fx = s.update(Message::ClearQuery, &env());
    let names: Vec<&str> = s.filtered_entries.iter().map(|(e, _)| e.name.as_str()).collect();
    assert_eq!(names, vec!["Terminal", "Files", "Firefox"]);
    let scores: Vec<u32> = s.filtered_entries.iter().map(|(_, n)| *n).collect();
    assert_eq!(scores, vec![0, 5, 2]);
    match &fx[0] {
        Effect::ResolveAppIcons { requests } => assert_eq!(requests.len(), 3),
        other => panic!("unexpected {:?}", other),
    }
    type_query(&mut s, "x");
    type_query(&mut s, "");
    assert_eq!(s.filtered_entries.len(), 3);
}

#[test]
fn dashboard_shows_at_most_five_recent_apps() {
    let entries: Vec<AppEntry> = (0..8).map(|i| app(&format!("App{}", i), &format!("app{}", i))).collect();
    let mut config = Config::default();
    config.history = (0..8).map(|i| (format!("app{}", i), 1 + i as u32)).collect();
    let mut s = CastIt::new(entries, config);
    s.update(Message::ClearQuery, &env());
    let names: Vec<&str> = s.filtered_entries.iter().map(|(e, _)| e.name.as_str()).collect();
    assert_eq!(names, vec!["App7", "App6", "App5", "App4", "App3"]);
}

#[test]
fn launching_counts_launches() {
    let mut s = launcher();
    type_query(&mut s, "firefox");
    s.update(Message::Submit, &env());
    type_query(&mut s, "firefox");
    s.update(Message::Submit, &env());
    assert_eq!(s.config.history, vec![("firefox".to_string(), 2)]);
}

#[test]
fn ctrl_d_toggles_a_favorite() {
    let mut s = launcher();
    type_query(&mut s, "firefox");
    let fx = s.update(Message::ToggleFavorite, &env());
    assert_eq!(fx.len(), 1);
    assert!(matches!(fx[0], Effect::SaveConfig));
    assert_eq!(s.config.favorites, vec!["firefox".to_string()]);
    s.update(Message::ToggleFavorite, &env());
    assert!(s.config.favorites.is_empty());
    type_query(&mut s, "zzzz");
    assert!(s.update(Message::ToggleFavorite, &env()).is_empty());
    type_query(&mut s, "..");
    assert!(s.update(Message::ToggleFavorite, &env()).is_empty());
}

#[test]
fn f_searches_the_home_directory() {
    let mut s = launcher();
    let fx = type_query(&mut s, "f  notes ");
    assert_eq!(s.mode, Mode::FileBrowser);
    match &fx[0] {
        Effect::SearchFiles { pattern, root } => {
            assert_eq!(pattern, "notes");
            assert_eq!(root, "/home/u");
        }
        other => panic!("unexpected {:?}", other),
    }
    let found = vec![
        FileEntry { name: "notes.md".into(), path: "/home/u/a/notes.md".into(), is_dir: false, icon_path: None },
        FileEntry { name: "todo.txt".into(), path: "/home/u/todo.txt".into(), is_dir: false, icon_path: None },
    ];
    s.update(Message::FilesFound { pattern: "other".into(), entries: found.clone() }, &env());
    assert!(s.filtered_files.is_empty());
    let fx = s.update(Message::FilesFound { pattern: "notes".into(), entries: found }, &env());
    assert_eq!(s.filtered_files.len(), 1);
    assert_eq!(s.filtered_files[0].0.path, "/home/u/a/notes.md");
    assert!(matches!(fx[0], Effect::ResolveFileIcons { .. }));
    let fx = s.update(Message::Submit, &env());
    assert!(matches!(&fx[0], Effect::OpenPath { path } if path == "/home/u/a/notes.md"));
    assert!(type_query(&mut s, "f ").is_empty());
}

#[test]
fn arithmetic_opens_the_calculator() {
    let mut s = launcher();
    type_query(&mut s, "10 * 9 - 8");
    assert_eq!(s.mode, Mode::Calculator);
    let fx = s.update(Message::Submit, &env());
    assert_eq!(fx.len(), 2);
    match &fx[0] {
        Effect::CopyCalculation { expression } => assert_eq!(expression, "10 * 9 - 8"),
        other => panic!("unexpected {:?}", other),
    }
    assert!(matches!(fx[1], Effect::Exit));
    type_query(&mut s, "(1.5 + 2) / 3 ");
    assert_eq!(s.mode, Mode::Calculator);
    type_query(&mut s, "2048");
    assert_eq!(s.mode, Mode::Launcher);
    type_query(&mut s, "fi + 1");
    assert_eq!(s.mode, Mode::Launcher);
    type_query(&mut s, "/ 2");
    assert_eq!(s.mode, Mode::FileBrowser);
}
