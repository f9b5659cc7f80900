use castit::help::{help_sections, help_title};
use castit::display::{copy_tag, row_marks};
use castit::display::{extension_tag, lower_extension, preview_kind_for, unreadable_text};
use castit::i18n::translate;
use castit::config::Config;
use castit::display::{
    settings_rows, shows_results_card, decimal_string, extension, file_location, file_tag, language_name, namespace, pixels_label,
    preview_kind, preview_text, resolve_theme_name, runner_console, type_label,
    web_search_label, PreviewKind, Tone, PREVIEW_LINES,
};
use castit::models::FileEntry;
use castit::keys::{key_message, Key};
use castit::state::{CastIt, Message, Mode, RunnerState};

fn entry(path: &str, is_dir: bool) -> FileEntry {
    FileEntry {
        name: path.rsplit('/').next().unwrap_or("").to_string(),
        path: path.to_string(),
        is_dir,
        icon_path: None,
    }
}

#[test]
fn window_namespace() {
    assert_eq!(namespace(), "castit");
}

#[test]
fn theme_names_resolve_with_a_default() {
    assert_eq!(resolve_theme_name(Some("Dracula")), "Dracula");
    assert_eq!(resolve_theme_name(Some("NoSuchTheme")), "TokyoNight");
    assert_eq!(resolve_theme_name(None), "TokyoNight");
    assert_eq!(resolve_theme_name(Some("dracula")), "TokyoNight");
}

#[test]
fn idle_console_shows_the_hint() {
    let c = runner_console(&RunnerState::Idle, "EN");
    assert_eq!(c.prompt, None);
    assert_eq!(
        c.text,
        "Press Enter to run in background, Ctrl+Enter to run in terminal"
    );
    assert_eq!(c.tone, Tone::Dim);
}

#[test]
fn running_console_shows_the_prompt() {
    let c = runner_console(
        &RunnerState::Running {
            command: "ls -la".to_string(),
        },
        "ES",
    );
    assert_eq!(c.prompt.as_deref(), Some("$ ls -la"));
    assert_eq!(c.text, "Ejecutando comando...");
    assert_eq!(c.tone, Tone::Normal);
}

#[test]
fn finished_console_shows_output_or_success() {
    let c = runner_console(
        &RunnerState::Finished {
            command: "echo hi".to_string(),
            output: "hi\n".to_string(),
        },
        "EN",
    );
    assert_eq!(c.text, "hi\n");
    assert_eq!(c.tone, Tone::Normal);
    let blank = runner_console(
        &RunnerState::Finished {
            command: "true".to_string(),
            output: "  \n".to_string(),
        },
        "EN",
    );
    assert_eq!(blank.text, "Command executed successfully (no output)");
    assert_eq!(blank.tone, Tone::Success);
}

#[test]
fn failed_console_is_always_danger() {
    let c = runner_console(
        &RunnerState::Failed {
            command: "false".to_string(),
            error: String::new(),
        },
        "EN",
    );
    assert_eq!(c.prompt.as_deref(), Some("$ false"));
    assert_eq!(c.text, "Command failed (no error output)");
    assert_eq!(c.tone, Tone::Danger);
    let e = runner_console(
        &RunnerState::Failed {
            command: "x".to_string(),
            error: "not found".to_string(),
        },
        "EN",
    );
    assert_eq!(e.text, "not found");
    assert_eq!(e.tone, Tone::Danger);
}

#[test]
fn file_locations_use_the_folder_and_tilde() {
    assert_eq!(
        file_location(&entry("/home/u/docs/a.txt", false), "/home/u"),
        "~/docs"
    );
    assert_eq!(
        file_location(&entry("/home/u/docs", true), "/home/u"),
        "~/docs"
    );
    assert_eq!(file_location(&entry("/etc/hosts", false), "/home/u"), "/etc");
    assert_eq!(file_location(&entry("/etc/hosts", false), ""), "/etc");
}

#[test]
fn language_labels() {
    assert_eq!(language_name(Some("ES")), "Español (ES)");
    assert_eq!(language_name(Some("EN")), "English (EN)");
    assert_eq!(language_name(None), "English (EN)");
}

#[test]
fn numbers_and_pixel_labels() {
    assert_eq!(decimal_string(0), "0");
    assert_eq!(decimal_string(7), "7");
    assert_eq!(decimal_string(1050), "1050");
    assert_eq!(decimal_string(u32::MAX), "4294967295");
    assert_eq!(pixels_label(Some(850), 800), "850 px");
    assert_eq!(pixels_label(None, 500), "500 px");
}

#[test]
fn file_hints_by_kind_and_language() {
    assert_eq!(file_tag(true, "EN"), "⏎ Open | → Navigate");
    assert_eq!(file_tag(true, "ES"), "⏎ Abrir | → Navegar");
    assert_eq!(file_tag(false, "EN"), "⏎ Launch | Ctrl+Space Preview");
    assert_eq!(file_tag(false, "ES"), "⏎ Lanzar | Ctrl+Espacio Vista previa");
}

#[test]
fn web_search_card_line() {
    assert_eq!(
        web_search_label("? rust verus ", "EN"),
        "Search on Google: rust verus"
    );
    assert_eq!(web_search_label("?", "ES"), "Buscar en Google: ");
}

#[test]
fn extensions_follow_path_rules() {
    assert_eq!(extension("/a/b/photo.PNG").as_deref(), Some("PNG"));
    assert_eq!(extension("/a/b/archive.tar.gz").as_deref(), Some("gz"));
    assert_eq!(extension("/a/b/.bashrc"), None);
    assert_eq!(extension("/a/b/Makefile"), None);
    assert_eq!(extension("/a/b.d/Makefile"), None);
    assert_eq!(extension("notes.md").as_deref(), Some("md"));
    assert_eq!(extension("/a/.."), None);
    assert_eq!(extension("/a/file.").as_deref(), Some(""));
}

#[test]
fn preview_kinds() {
    assert_eq!(preview_kind("/x/dir", true), PreviewKind::Folder);
    assert_eq!(preview_kind("/x/a.JPG", false), PreviewKind::Image);
    assert_eq!(preview_kind("/x/logo.svg", false), PreviewKind::Vector);
    assert_eq!(preview_kind("/x/main.rs", false), PreviewKind::Text);
    assert_eq!(preview_kind("/x/conf.YAML", false), PreviewKind::Text);
    assert_eq!(preview_kind("/x/video.mp4", false), PreviewKind::Other);
    assert_eq!(preview_kind("/x/README", false), PreviewKind::Other);
}

#[test]
fn type_labels() {
    assert_eq!(type_label(&entry("/x/dir", true), "EN"), "Folder");
    assert_eq!(type_label(&entry("/x/dir", true), "ES"), "Carpeta");
    assert_eq!(type_label(&entry("/x/main.rs", false), "EN"), "RS File");
    assert_eq!(type_label(&entry("/x/README", false), "ES"), "Archivo");
    assert_eq!(type_label(&entry("/x/README", false), "EN"), "File");
}

#[test]
fn text_previews_keep_the_first_lines() {
    assert_eq!(preview_text("", PREVIEW_LINES), "");
    assert_eq!(preview_text("a\nb\n", PREVIEW_LINES), "a\nb");
    assert_eq!(preview_text("a\r\nb\r\n", PREVIEW_LINES), "a\nb");
    assert_eq!(preview_text("a\n\nb", PREVIEW_LINES), "a\n\nb");
    assert_eq!(preview_text("x\r", PREVIEW_LINES), "x\r");
    assert_eq!(preview_text("1\n2\n3\n4", 2), "1\n2");
    let long: String = (0..400).map(|i| format!("line {}\n", i)).collect();
    let expected = long.lines().take(300).collect::<Vec<&str>>().join("\n");
    assert_eq!(preview_text(&long, PREVIEW_LINES), expected);
}

#[test]
fn results_card_visibility() {
    let mut s = CastIt::new(Vec::new(), Config::default());
    assert!(!shows_results_card(&s));
    s.query = "x".to_string();
    assert!(shows_results_card(&s));
    s.query = String::new();
    s.mode = Mode::FileBrowser;
    assert!(!shows_results_card(&s));
    s.mode = Mode::Settings;
    assert!(shows_results_card(&s));
    s.mode = Mode::Help;
    assert!(shows_results_card(&s));
}

#[test]
fn keys_in_the_settings() {
    let m = Mode::Settings;
    assert!(matches!(key_message(m, Key::Escape, false, false), Some(Message::Escape)));
    assert!(matches!(key_message(m, Key::ArrowLeft, false, false), Some(Message::ArrowLeft)));
    assert!(matches!(key_message(m, Key::ArrowRight, false, false), Some(Message::ArrowRight)));
    assert!(matches!(key_message(m, Key::ArrowDown, true, false), Some(Message::ArrowDown)));
    assert!(matches!(key_message(m, Key::Backspace, true, false), Some(Message::ClearQuery)));
    assert!(key_message(m, Key::Backspace, false, false).is_none());
    assert!(key_message(m, Key::Enter, false, true).is_none());
    assert!(key_message(m, Key::Space, false, true).is_none());
}

#[test]
fn keys_in_the_file_browser() {
    let m = Mode::FileBrowser;
    assert!(matches!(key_message(m, Key::ArrowDown, false, false), Some(Message::ArrowDown)));
    assert!(matches!(key_message(m, Key::ArrowDown, true, false), Some(Message::ScrollPreviewDown)));
    assert!(matches!(key_message(m, Key::ArrowUp, true, false), Some(Message::ScrollPreviewUp)));
    assert!(key_message(m, Key::ArrowLeft, false, false).is_none());
    assert!(matches!(key_message(m, Key::ArrowLeft, true, false), Some(Message::ArrowLeft)));
    assert!(matches!(key_message(m, Key::ArrowRight, false, false), Some(Message::ArrowRight)));
    assert!(matches!(key_message(m, Key::Space, false, true), Some(Message::TogglePreview)));
    assert!(key_message(m, Key::Space, false, false).is_none());
    assert!(matches!(key_message(m, Key::Delete, true, false), Some(Message::ClearQuery)));
    assert!(key_message(m, Key::Enter, false, true).is_none());
}

#[test]
fn keys_elsewhere() {
    for m in [Mode::Launcher, Mode::CommandRunner, Mode::Help, Mode::WebSearch] {
        assert!(matches!(key_message(m, Key::Escape, false, false), Some(Message::Escape)));
        assert!(matches!(key_message(m, Key::ArrowUp, true, false), Some(Message::ArrowUp)));
        assert!(key_message(m, Key::ArrowLeft, false, false).is_none());
        assert!(key_message(m, Key::ArrowRight, false, false).is_none());
        assert!(matches!(key_message(m, Key::Enter, false, true), Some(Message::SubmitInTerminal)));
        assert!(key_message(m, Key::Enter, false, false).is_none());
        assert!(key_message(m, Key::Other, true, true).is_none());
    }
}

#[test]
fn settings_rows_show_values_and_defaults() {
    let rows = settings_rows(&Config::default());
    let keys: Vec<&str> = rows.iter().map(|r| r.0).collect();
    assert_eq!(
        keys,
        vec![
            "setting_theme",
            "setting_terminal",
            "setting_opacity",
            "setting_width",
            "setting_height",
            "setting_language",
            "setting_browser"
        ]
    );
    assert_eq!(rows[0].1.as_deref(), Some("TokyoNight"));
    assert_eq!(rows[1].1.as_deref(), Some("Auto"));
    assert_eq!(rows[2].1, None);
    assert_eq!(rows[3].1.as_deref(), Some("800 px"));
    assert_eq!(rows[4].1.as_deref(), Some("500 px"));
    assert_eq!(rows[5].1.as_deref(), Some("English (EN)"));
    assert_eq!(rows[6].1.as_deref(), Some("Auto"));
    let mut c = Config::default();
    c.theme = None;
    c.width = None;
    c.language = Some("ES".to_string());
    c.browser = Some("firefox".to_string());
    let rows = settings_rows(&c);
    assert_eq!(rows[0].1.as_deref(), Some("TokyoNight"));
    assert_eq!(rows[3].1.as_deref(), Some("800 px"));
    assert_eq!(rows[5].1.as_deref(), Some("Español (ES)"));
    assert_eq!(rows[6].1.as_deref(), Some("firefox"));
}

#[test]
fn ctrl_d_toggles_a_favorite_outside_settings_and_files() {
    for m in [Mode::Launcher, Mode::CommandRunner, Mode::Help, Mode::WebSearch] {
        assert!(matches!(key_message(m, Key::Character('d'), false, true), Some(Message::ToggleFavorite)));
        assert!(matches!(key_message(m, Key::Character('D'), true, true), Some(Message::ToggleFavorite)));
        assert!(key_message(m, Key::Character('d'), false, false).is_none());
        assert!(key_message(m, Key::Character('x'), false, true).is_none());
    }
    assert!(key_message(Mode::Settings, Key::Character('d'), false, true).is_none());
    assert!(key_message(Mode::FileBrowser, Key::Character('d'), false, true).is_none());
}

#[test]
fn shortcut_sheet_by_language() {
    assert_eq!(help_title("EN"), "Keyboard Shortcuts");
    assert_eq!(help_title("ES"), "Atajos de Teclado");
    let en = help_sections("EN");
    assert_eq!(en.len(), 9);
    assert_eq!(en[8].title, "Settings ('..')");
    assert_eq!(en[8].items[1], ("← / →", "Change selected value"));
    assert_eq!(help_sections("ES")[8].title, "Ajustes ('..')");
    assert_eq!(en[0].title, "Global");
    assert_eq!(en[0].items[0], ("Esc", "Exit CastIt"));
    assert!(en[0].left);
    assert_eq!(en[4].title, "Files ('/', '~')");
    assert!(!en[4].left);
    assert_eq!(en[4].items.len(), 5);
    let es = help_sections("ES");
    assert_eq!(es[1].items[2], ("Ctrl + D", "Añadir/quitar app favorita (Dashboard)"));
    assert_eq!(help_sections("FR")[0].items[0].1, "Exit CastIt");
}

#[test]
fn result_marks() {
    let mut c = Config::default();
    assert_eq!(row_marks(&c, "firefox"), (false, false));
    c.favorites = vec!["firefox".to_string()];
    c.history = vec![("kgx".to_string(), 3)];
    assert_eq!(row_marks(&c, "firefox"), (true, false));
    assert_eq!(row_marks(&c, "kgx"), (false, true));
    // A stored count of zero still marks the application as recent.
    c.history = vec![("kgx".to_string(), 0)];
    assert_eq!(row_marks(&c, "kgx"), (false, true));
}

#[test]
fn previews_by_extension_and_tags() {
    assert_eq!(preview_kind_for("png"), PreviewKind::Image);
    assert_eq!(preview_kind_for("PNG"), PreviewKind::Other);
    assert_eq!(preview_kind_for("svg"), PreviewKind::Vector);
    assert_eq!(preview_kind_for("yml"), PreviewKind::Text);
    assert_eq!(preview_kind_for(""), PreviewKind::Other);
    assert_eq!(lower_extension("/x/Photo.JPG"), "jpg");
    assert_eq!(extension_tag("/x/movie.Mp4"), "MP4");
    assert_eq!(extension_tag("/x/README"), "");
    assert_eq!(unreadable_text("ES"), "No se puede leer el archivo");
    assert_eq!(unreadable_text("EN"), "Cannot read file contents");
}

#[test]
fn every_key_is_translated_in_both_languages() {
    let keys = [
        "search_placeholder", "no_results", "no_files", "cmd_idle", "cmd_running", "cmd_success",
        "cmd_failed", "info_tip", "setting_theme", "setting_terminal", "setting_opacity",
        "setting_width", "setting_height", "setting_language", "setting_browser", "launch_tag",
    ];
    for k in keys {
        let es = translate(k, "ES");
        let en = translate(k, "EN");
        assert!(!es.is_empty() && !en.is_empty());
        assert_ne!(es, k);
        assert_ne!(en, k);
        assert_ne!(es, en);
    }
}

#[test]
fn calculator_tag_by_language() {
    assert_eq!(copy_tag("ES"), "⏎ Copiar");
    assert_eq!(copy_tag("EN"), "⏎ Copy");
}
