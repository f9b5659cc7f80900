use vstd::prelude::*;

use crate::config::{theme_names, themes, Config, ConfigView};
use crate::files::tilde_path;
use crate::favorites::{history_pos, in_history, is_favorite};
use crate::i18n::{translate, translation};
use crate::models::FileEntry;
use crate::state::{CastIt, CastItView, Mode, RunnerState, RunnerView};
use crate::text::{
    chars_eq, chars_of, concat_str, has_char, lowercase_of, rfind_char, slice_chars, string_of,
    lemma_split_on_nonempty, split_chars, split_on, to_lowercase, to_uppercase, trim, trim_chars,
    uppercase_of, Chars,
};

verus! {

/// The layer-shell namespace of the launcher window.
pub fn namespace() -> (r: String)
    ensures
        r@ == "castit"@,
{
    "castit".to_owned()
}

/// The theme a configured name stands for: the name itself when it is one of the
/// themes, `TokyoNight` when it is unset or unknown.
pub open spec fn resolved_theme(name: Option<Chars>) -> Chars {
    let n = match name {
        Some(n) => n,
        None => "TokyoNight"@,
    };
    if theme_names().contains(n) {
        n
    } else {
        "TokyoNight"@
    }
}

/// Resolves the configured theme name.
pub fn resolve_theme_name(name: Option<&str>) -> (r: String)
    ensures
        r@ == resolved_theme(
            match name {
                Some(n) => Some(n@),
                None => None,
            },
        ),
{
    let n: String = match name {
        Some(n) => n.to_owned(),
        None => "TokyoNight".to_owned(),
    };
    let list = themes();
    let c = chars_of(n.as_str());
    let found = crate::config::find_position(&list, &c);
    proof {
        crate::config::lemma_position_of(theme_names(), c@);
    }
    match found {
        Some(_) => n,
        None => "TokyoNight".to_owned(),
    }
}

/// Whether the card under the search bar is shown: in the launcher and the file
/// browser only when there are results or a query; in every other mode always.
pub open spec fn results_card_shown(s: CastItView) -> bool {
    match s.mode {
        Mode::Launcher => s.filtered_entries.len() > 0 || s.query.len() > 0,
        Mode::FileBrowser => s.filtered_files.len() > 0 || s.query.len() > 0,
        _ => true,
    }
}

/// Decides whether the card under the search bar is shown.
pub fn shows_results_card(state: &CastIt) -> (r: bool)
    ensures
        r == results_card_shown(state@),
{
    match state.mode {
        Mode::Launcher => state.filtered_entries.len() > 0 || chars_of(state.query.as_str()).len() > 0,
        Mode::FileBrowser => state.filtered_files.len() > 0 || chars_of(state.query.as_str()).len() > 0,
        _ => true,
    }
}

// ---------------------------------------------------------------------------
// The command runner's console
// ---------------------------------------------------------------------------

/// How the console text is coloured.
#[derive(Debug, Clone, Copy, PartialEq, Eq, Structural)]
pub enum Tone {
    Dim,
    Normal,
    Success,
    Danger,
}

/// What the command runner's console shows.
#[derive(Debug)]
pub struct Console {
    /// The `$ command` line, once a command was started.
    pub prompt: Option<String>,
    pub text: String,
    pub tone: Tone,
}

/// The command the console shows after `$`.
pub open spec fn console_prompt(r: RunnerView) -> Option<Chars> {
    match r {
        RunnerView::Idle => None,
        RunnerView::Running { command } => Some("$ "@ + command),
        RunnerView::Finished { command, .. } => Some("$ "@ + command),
        RunnerView::Failed { command, .. } => Some("$ "@ + command),
    }
}

/// The console text and its tone: a hint while idle, a note while running, the
/// output of a finished command (a success note when it is blank), the error of a
/// failed one (a failure note when it is blank).
pub open spec fn console_text(r: RunnerView, lang: Chars) -> (Chars, Tone) {
    match r {
        RunnerView::Idle => (translation("cmd_idle"@, lang), Tone::Dim),
        RunnerView::Running { .. } => (translation("cmd_running"@, lang), Tone::Normal),
        RunnerView::Finished { output, .. } => if trim(output).len() == 0 {
            (translation("cmd_success"@, lang), Tone::Success)
        } else {
            (output, Tone::Normal)
        },
        RunnerView::Failed { error, .. } => if trim(error).len() == 0 {
            (translation("cmd_failed"@, lang), Tone::Danger)
        } else {
            (error, Tone::Danger)
        },
    }
}

/// Decides what the command runner's console shows.
pub fn runner_console(state: &RunnerState, lang: &str) -> (r: Console)
    ensures
        crate::models::opt_chars(r.prompt) == console_prompt(state@),
        (r.text@, r.tone) == console_text(state@, lang@),
{
    match state {
        RunnerState::Idle => Console {
            prompt: None,
            text: translate("cmd_idle", lang).to_owned(),
            tone: Tone::Dim,
        },
        RunnerState::Running { command } => Console {
            prompt: Some(concat_str("$ ", command.as_str())),
            text: translate("cmd_running", lang).to_owned(),
            tone: Tone::Normal,
        },
        RunnerState::Finished { command, output } => {
            let blank = trim_chars(&chars_of(output.as_str())).len() == 0;
            Console {
                prompt: Some(concat_str("$ ", command.as_str())),
                text: if blank {
                    translate("cmd_success", lang).to_owned()
                } else {
                    output.clone()
                },
                tone: if blank {
                    Tone::Success
                } else {
                    Tone::Normal
                },
            }
        },
        RunnerState::Failed { command, error } => {
            let blank = trim_chars(&chars_of(error.as_str())).len() == 0;
            Console {
                prompt: Some(concat_str("$ ", command.as_str())),
                text: if blank {
                    translate("cmd_failed", lang).to_owned()
                } else {
                    error.clone()
                },
                tone: Tone::Danger,
            }
        },
    }
}

// ---------------------------------------------------------------------------
// Result rows and settings values
// ---------------------------------------------------------------------------

/// The folder shown under a file browser result: the path of a directory, the
/// folder that holds a file, home written as `~`.
pub open spec fn location_line(path: Chars, is_dir: bool, home: Chars) -> Chars {
    let folder = if is_dir {
        path
    } else if has_char(path, '/') {
        path.take(crate::files::last_slash(path))
    } else {
        path
    };
    tilde_path(folder, home)
}

/// Computes the folder line shown under a file browser result.
pub fn file_location(entry: &FileEntry, home: &str) -> (r: String)
    ensures
        r@ == location_line(entry.path@, entry.is_dir, home@),
{
    let folder: String = if entry.is_dir {
        entry.path.clone()
    } else {
        let p = chars_of(entry.path.as_str());
        match rfind_char(&p, '/') {
            Some(k) => {
                proof {
                    crate::files::lemma_last_slash_exists(p@);
                    let l = crate::files::last_slash(p@);
                    if l < k {
                    } else if l > k {
                    }
                    assert(p@.take(k as int) =~= p@.subrange(0, k as int));
                }
                string_of(&slice_chars(&p, 0, k))
            },
            None => entry.path.clone(),
        }
    };
    crate::files::display_path(folder.as_str(), home)
}

/// The language name shown in the settings.
pub open spec fn language_label(lang: Option<Chars>) -> Chars {
    if lang == Some("ES"@) {
        "Español (ES)"@
    } else {
        "English (EN)"@
    }
}

/// Names the configured language for the settings list.
pub fn language_name(lang: Option<&str>) -> (r: &'static str)
    ensures
        r@ == language_label(
            match lang {
                Some(l) => Some(l@),
                None => None,
            },
        ),
{
    let es = match lang {
        Some(l) => chars_eq(&chars_of(l), &chars_of("ES")),
        None => false,
    };
    if es {
        "Español (ES)"
    } else {
        "English (EN)"
    }
}

/// The decimal digits of a number.
pub open spec fn decimal(n: nat) -> Chars
    decreases n,
{
    if n < 10 {
        seq![(('0' as nat) + n) as char]
    } else {
        decimal(n / 10) + seq![(('0' as nat) + n % 10) as char]
    }
}

/// Writes a number in decimal.
pub fn decimal_string(n: u32) -> (r: String)
    ensures
        r@ == decimal(n as nat),
    decreases n,
{
    let d = ((n % 10) as u8 + 0x30) as char;
    if n < 10 {
        let mut v: Vec<char> = Vec::new();
        v.push(d);
        proof {
            assert(v@ =~= decimal(n as nat));
        }
        string_of(&v)
    } else {
        let head = decimal_string(n / 10);
        let mut v = chars_of(head.as_str());
        v.push(d);
        proof {
            assert(v@ =~= decimal(n as nat));
        }
        string_of(&v)
    }
}

/// A window size as the settings list shows it, e.g. `800 px`; an unset size shows
/// its default.
pub fn pixels_label(value: Option<u32>, default: u32) -> (r: String)
    ensures
        r@ == decimal(value.unwrap_or(default) as nat) + " px"@,
{
    let v = match value {
        Some(v) => v,
        None => default,
    };
    let d = decimal_string(v);
    concat_str(d.as_str(), " px")
}

/// The translation key of the label of settings item `item`.
pub open spec fn setting_key(item: int) -> Chars {
    if item == 0 {
        "setting_theme"@
    } else if item == 1 {
        "setting_terminal"@
    } else if item == 2 {
        "setting_opacity"@
    } else if item == 3 {
        "setting_width"@
    } else if item == 4 {
        "setting_height"@
    } else if item == 5 {
        "setting_language"@
    } else {
        "setting_browser"@
    }
}

/// The value the settings list shows for item `item`; none for the opacity, which is
/// kept outside the library.
pub open spec fn setting_text(c: ConfigView, item: int) -> Option<Chars> {
    if item == 0 {
        Some(c.theme.unwrap_or("TokyoNight"@))
    } else if item == 1 {
        Some(c.terminal.unwrap_or("Auto"@))
    } else if item == 2 {
        None
    } else if item == 3 {
        Some(decimal(c.width.unwrap_or(800) as nat) + " px"@)
    } else if item == 4 {
        Some(decimal(c.height.unwrap_or(500) as nat) + " px"@)
    } else if item == 5 {
        Some(language_label(c.language))
    } else {
        Some(c.browser.unwrap_or("Auto"@))
    }
}

/// The translation key and the shown value of each settings item, in order.
pub fn settings_rows(config: &Config) -> (r: Vec<(&'static str, Option<String>)>)
    ensures
        r@.len() == 7,
        forall|i: int|
            0 <= i < 7 ==> #[trigger] r@[i].0@ == setting_key(i) && crate::models::opt_chars(
                r@[i].1,
            ) == setting_text(config@, i),
{
    let theme = match &config.theme {
        Some(t) => t.clone(),
        None => "TokyoNight".to_owned(),
    };
    let terminal = match &config.terminal {
        Some(t) => t.clone(),
        None => "Auto".to_owned(),
    };
    let browser = match &config.browser {
        Some(b) => b.clone(),
        None => "Auto".to_owned(),
    };
    let language = match &config.language {
        Some(l) => language_name(Some(l.as_str())),
        None => language_name(None),
    };
    let mut r: Vec<(&'static str, Option<String>)> = Vec::new();
    r.push(("setting_theme", Some(theme)));
    r.push(("setting_terminal", Some(terminal)));
    r.push(("setting_opacity", None));
    r.push(("setting_width", Some(pixels_label(config.width, 800))));
    r.push(("setting_height", Some(pixels_label(config.height, 500))));
    r.push(("setting_language", Some(language.to_owned())));
    r.push(("setting_browser", Some(browser)));
    r
}

/// The hint shown on the selected file browser result.
pub open spec fn file_hint(is_dir: bool, lang: Chars) -> Chars {
    if is_dir {
        if lang == "ES"@ {
            "⏎ Abrir | → Navegar"@
        } else {
            "⏎ Open | → Navigate"@
        }
    } else if lang == "ES"@ {
        "⏎ Lanzar | Ctrl+Espacio Vista previa"@
    } else {
        "⏎ Launch | Ctrl+Space Preview"@
    }
}

/// Gives the hint shown on the selected file browser result.
pub fn file_tag(is_dir: bool, lang: &str) -> (r: &'static str)
    ensures
        r@ == file_hint(is_dir, lang@),
{
    let es = chars_eq(&chars_of(lang), &chars_of("ES"));
    if is_dir {
        if es {
            "⏎ Abrir | → Navegar"
        } else {
            "⏎ Open | → Navigate"
        }
    } else if es {
        "⏎ Lanzar | Ctrl+Espacio Vista previa"
    } else {
        "⏎ Launch | Ctrl+Space Preview"
    }
}

/// The line of the web search card: a label and the search typed after `?`.
pub open spec fn web_search_line(query: Chars, lang: Chars) -> Chars {
    let label = if lang == "ES"@ {
        "Buscar en Google: "@
    } else {
        "Search on Google: "@
    };
    label + trim(crate::state::without_lead(query, '?'))
}

/// Writes the line of the web search card.
pub fn web_search_label(query: &str, lang: &str) -> (r: String)
    ensures
        r@ == web_search_line(query@, lang@),
{
    let q = chars_of(query);
    let rest = if crate::text::first_is(&q, '?') {
        slice_chars(&q, 1, q.len())
    } else {
        q.clone()
    };
    proof {
        if query@.len() > 0 && query@[0] == '?' {
            assert(rest@ =~= query@.drop_first());
        }
    }
    let t = string_of(&trim_chars(&rest));
    let label = if chars_eq(&chars_of(lang), &chars_of("ES")) {
        "Buscar en Google: "
    } else {
        "Search on Google: "
    };
    concat_str(label, t.as_str())
}

// ---------------------------------------------------------------------------
// File previews
// ---------------------------------------------------------------------------

/// How a file is previewed.
#[derive(Debug, Clone, Copy, PartialEq, Eq, Structural)]
pub enum PreviewKind {
    Folder,
    Image,
    Vector,
    Text,
    Other,
}

/// The last component of a path: what follows its last `/`.
pub open spec fn file_name_of(path: Chars) -> Chars {
    if has_char(path, '/') {
        path.skip(crate::files::last_slash(path) + 1)
    } else {
        path
    }
}

/// The index of the last `.` of `s`, which must have one.
pub open spec fn last_dot(s: Chars) -> int {
    choose|k: int| 0 <= k < s.len() && s[k] == '.' && forall|j: int| k < j < s.len() ==> s[j] != '.'
}

/// The extension of a file name as `Path::extension` gives it: what follows the last
/// `.`, unless the name is `..`, has no `.`, or its only `.` opens it.
pub open spec fn extension_of(name: Chars) -> Option<Chars> {
    if name == ".."@ || !has_char(name, '.') || last_dot(name) == 0 {
        None
    } else {
        Some(name.skip(last_dot(name) + 1))
    }
}

/// Image extensions shown as pictures.
pub open spec fn image_exts() -> Seq<Chars> {
    seq!["png"@, "jpg"@, "jpeg"@, "gif"@, "webp"@]
}

/// Code and text extensions shown as text.
pub open spec fn text_exts() -> Seq<Chars> {
    seq![
        "rs"@, "toml"@, "json"@, "txt"@, "md"@, "css"@, "js"@, "ts"@, "tsx"@, "jsx"@, "html"@,
        "sh"@, "bash"@, "py"@, "c"@, "cpp"@, "h"@, "hpp"@, "go"@, "java"@, "kt"@, "scala"@,
        "xml"@, "gradle"@, "properties"@, "conf"@, "ini"@, "sql"@, "yaml"@, "yml"@,
    ]
}

/// How an entry is previewed: folders as folders, then by the lowercased extension of
/// the file name in its path (no extension counts as an empty one).
pub open spec fn preview_kind_of(path: Chars, is_dir: bool) -> PreviewKind {
    if is_dir {
        PreviewKind::Folder
    } else {
        kind_for_extension(lowered_extension(path))
    }
}

/// The lowercased extension of the file name in `path`, empty when it has none.
pub open spec fn lowered_extension(path: Chars) -> Chars {
    match extension_of(file_name_of(path)) {
        Some(e) => lowercase_of(e),
        None => lowercase_of(Seq::empty()),
    }
}

/// How a file with a (lowercased) extension is previewed.
pub open spec fn kind_for_extension(ext: Chars) -> PreviewKind {
    if image_exts().contains(ext) {
        PreviewKind::Image
    } else if ext == "svg"@ {
        PreviewKind::Vector
    } else if text_exts().contains(ext) {
        PreviewKind::Text
    } else {
        PreviewKind::Other
    }
}

fn in_list(list: &[&str], x: &Vec<char>) -> (r: bool)
    ensures
        r == list@.map_values(|s: &str| s@).contains(x@),
{
    let ghost m = list@.map_values(|s: &str| s@);
    let mut i: usize = 0;
    while i < list.len()
        invariant
            i <= list@.len(),
            m == list@.map_values(|s: &str| s@),
            forall|j: int| 0 <= j < i ==> m[j] != x@,
        decreases list@.len() - i,
    {
        if chars_eq(&chars_of(list[i]), x) {
            assert(m[i as int] == x@);
            return true;
        }
        i += 1;
    }
    false
}

/// The extension of the file name at the end of `path`.
pub fn extension(path: &str) -> (r: Option<String>)
    ensures
        crate::models::opt_chars(r) == extension_of(file_name_of(path@)),
{
    let p = chars_of(path);
    let name: Vec<char> = match rfind_char(&p, '/') {
        Some(k) => {
            proof {
                crate::files::lemma_last_slash_exists(p@);
                let l = crate::files::last_slash(p@);
                if l < k {
                } else if l > k {
                }
                assert(p@.skip(k + 1) =~= p@.subrange(k + 1, p@.len() as int));
            }
            let n = p.len();
            slice_chars(&p, k + 1, n)
        },
        None => p,
    };
    if chars_eq(&name, &chars_of("..")) {
        return None;
    }
    match rfind_char(&name, '.') {
        Some(k) => {
            proof {
                lemma_last_dot(name@, k as int);
            }
            if k == 0 {
                None
            } else {
                let n = name.len();
                proof {
                    assert(name@.skip(k + 1) =~= name@.subrange(k + 1, n as int));
                }
                Some(string_of(&slice_chars(&name, k + 1, n)))
            }
        },
        None => None,
    }
}

proof fn lemma_last_dot(s: Chars, k: int)
    requires
        0 <= k < s.len(),
        s[k] == '.',
        forall|j: int| k < j < s.len() ==> s[j] != '.',
    ensures
        last_dot(s) == k,
{
    assert(has_char(s, '.'));
    let c = last_dot(s);
    if c < k {
    } else if c > k {
    }
}

/// Gives the lowercased extension of the file name in `path`.
pub fn lower_extension(path: &str) -> (r: String)
    ensures
        r@ == lowered_extension(path@),
{
    proof {
        reveal_strlit("");
        assert(""@ =~= Seq::<char>::empty());
    }
    match extension(path) {
        Some(e) => to_lowercase(e.as_str()),
        None => to_lowercase(""),
    }
}

/// Decides how a file with a given (lowercased) extension is previewed.
pub fn preview_kind_for(ext: &str) -> (r: PreviewKind)
    ensures
        r == kind_for_extension(ext@),
{
    let e = chars_of(ext);
    let images: [&str; 5] = ["png", "jpg", "jpeg", "gif", "webp"];
    let texts: [&str; 30] = [
        "rs", "toml", "json", "txt", "md", "css", "js", "ts", "tsx", "jsx", "html", "sh", "bash",
        "py", "c", "cpp", "h", "hpp", "go", "java", "kt", "scala", "xml", "gradle", "properties",
        "conf", "ini", "sql", "yaml", "yml",
    ];
    proof {
        assert(images@.map_values(|s: &str| s@) =~= image_exts());
        assert(texts@.map_values(|s: &str| s@) =~= text_exts());
    }
    let is_image = in_list(&images, &e);
    assert(is_image == image_exts().contains(e@));
    if is_image {
        PreviewKind::Image
    } else if chars_eq(&e, &chars_of("svg")) {
        PreviewKind::Vector
    } else if in_list(&texts, &e) {
        PreviewKind::Text
    } else {
        PreviewKind::Other
    }
}

/// Decides how a file browser entry is previewed.
pub fn preview_kind(path: &str, is_dir: bool) -> (r: PreviewKind)
    ensures
        r == preview_kind_of(path@, is_dir),
{
    if is_dir {
        return PreviewKind::Folder;
    }
    let ext = lower_extension(path);
    preview_kind_for(ext.as_str())
}

/// The tag shown under a file that has no preview: its extension, uppercased.
pub open spec fn extension_tag_of(path: Chars) -> Chars {
    uppercase_of(lowered_extension(path))
}

/// Gives the tag shown under a file that has no preview.
pub fn extension_tag(path: &str) -> (r: String)
    ensures
        r@ == extension_tag_of(path@),
{
    let lower = lower_extension(path);
    to_uppercase(lower.as_str())
}

/// The note shown when a text file cannot be read for its preview.
pub open spec fn unreadable_note(lang: Chars) -> Chars {
    if lang == "ES"@ {
        "No se puede leer el archivo"@
    } else {
        "Cannot read file contents"@
    }
}

/// Gives the note shown when a text file cannot be read for its preview.
pub fn unreadable_text(lang: &str) -> (r: &'static str)
    ensures
        r@ == unreadable_note(lang@),
{
    if chars_eq(&chars_of(lang), &chars_of("ES")) {
        "No se puede leer el archivo"
    } else {
        "Cannot read file contents"
    }
}

/// The tag of the calculator card: Enter copies the result.
pub open spec fn copy_hint(lang: Chars) -> Chars {
    if lang == "ES"@ {
        "⏎ Copiar"@
    } else {
        "⏎ Copy"@
    }
}

/// Gives the tag of the calculator card.
pub fn copy_tag(lang: &str) -> (r: &'static str)
    ensures
        r@ == copy_hint(lang@),
{
    if chars_eq(&chars_of(lang), &chars_of("ES")) {
        "⏎ Copiar"
    } else {
        "⏎ Copy"
    }
}

/// The marks of a launcher result: whether it is a favourite, and whether the launch
/// counts hold it.
pub open spec fn row_marks_of(c: ConfigView, command: Chars) -> (bool, bool) {
    (c.favorites.contains(command), history_pos(c.history, command) is Some)
}

/// Decides the marks of a launcher result.
pub fn row_marks(config: &Config, command: &str) -> (r: (bool, bool))
    ensures
        r == row_marks_of(config@, command@),
{
    (is_favorite(&config.favorites, command), in_history(&config.history, command))
}

/// The kind of an entry as the preview header names it: a folder, the uppercased
/// extension of a file followed by ` File`, or a plain file when it has none.
pub open spec fn kind_label(path: Chars, is_dir: bool, lang: Chars) -> Chars {
    if is_dir {
        if lang == "ES"@ {
            "Carpeta"@
        } else {
            "Folder"@
        }
    } else {
        match extension_of(file_name_of(path)) {
            Some(e) => uppercase_of(e) + " File"@,
            None => if lang == "ES"@ {
                "Archivo"@
            } else {
                "File"@
            },
        }
    }
}

/// Names the kind of a file browser entry for the preview header.
pub fn type_label(entry: &FileEntry, lang: &str) -> (r: String)
    ensures
        r@ == kind_label(entry.path@, entry.is_dir, lang@),
{
    let es = chars_eq(&chars_of(lang), &chars_of("ES"));
    if entry.is_dir {
        return if es {
            "Carpeta".to_owned()
        } else {
            "Folder".to_owned()
        };
    }
    match extension(entry.path.as_str()) {
        Some(e) => {
            let up = to_uppercase(e.as_str());
            concat_str(up.as_str(), " File")
        },
        None => if es {
            "Archivo".to_owned()
        } else {
            "File".to_owned()
        },
    }
}

/// The most lines a text preview shows.
pub const PREVIEW_LINES: usize = 300;

/// The lines of `s` as `str::lines` gives them: split at each `\n`, a `\r` before
/// the `\n` dropped, and no empty line after a final `\n`.
pub open spec fn text_lines(s: Chars) -> Seq<Chars> {
    let p = split_on(s, '\n');
    let n = if s.len() == 0 {
        0
    } else if s.last() == '\n' {
        p.len() - 1
    } else {
        p.len() as int
    };
    Seq::new(
        n as nat,
        |k: int|
            if k < p.len() - 1 && p[k].len() > 0 && p[k].last() == '\r' {
                p[k].drop_last()
            } else {
                p[k]
            },
    )
}

/// Lines joined with `\n` between them.
pub open spec fn joined(lines: Seq<Chars>) -> Chars
    decreases lines.len(),
{
    if lines.len() == 0 {
        Seq::empty()
    } else if lines.len() == 1 {
        lines[0]
    } else {
        joined(lines.drop_last()) + seq!['\n'] + lines.last()
    }
}

/// The text a preview shows of a file's contents: its first `max` lines.
pub open spec fn preview_of(content: Chars, max: nat) -> Chars {
    let l = text_lines(content);
    joined(l.take(if l.len() < max { l.len() as int } else { max as int }))
}

/// Cuts a file's contents down to its first `max` lines for the text preview.
pub fn preview_text(content: &str, max: usize) -> (r: String)
    ensures
        r@ == preview_of(content@, max as nat),
{
    let s = chars_of(content);
    let pieces = split_chars(&s, '\n');
    proof {
        lemma_split_on_nonempty(s@, '\n');
    }
    let ghost lines = text_lines(s@);
    let total: usize = if s.len() == 0 {
        0
    } else if s[s.len() - 1] == '\n' {
        pieces.len() - 1
    } else {
        pieces.len()
    };
    assert(total == lines.len());
    let count: usize = if total < max {
        total
    } else {
        max
    };
    let mut out: Vec<char> = Vec::new();
    let mut i: usize = 0;
    while i < count
        invariant
            count <= total <= pieces@.len(),
            total == lines.len(),
            lines == text_lines(s@),
            s@ == content@,
            pieces@.len() == split_on(s@, '\n').len(),
            forall|k: int| 0 <= k < pieces@.len() ==> #[trigger] pieces@[k]@ == split_on(s@, '\n')[k],
            i <= count,
            out@ == joined(lines.take(i as int)),
        decreases count - i,
    {
        let piece = &pieces[i];
        let strip = i + 1 < pieces.len() && piece.len() > 0 && piece[piece.len() - 1] == '\r';
        let end = if strip {
            piece.len() - 1
        } else {
            piece.len()
        };
        let line = slice_chars(piece, 0, end);
        proof {
            assert(line@ == lines[i as int]) by {
                if strip {
                    assert(piece@.drop_last() =~= piece@.subrange(0, end as int));
                } else {
                    assert(piece@ =~= piece@.subrange(0, end as int));
                }
            }
        }
        let ghost before = out@;
        if i > 0 {
            out.push('\n');
        }
        let mut j: usize = 0;
        while j < line.len()
            invariant
                j <= line@.len(),
                out@ == (if i > 0 {
                    before + seq!['\n']
                } else {
                    before
                }) + line@.take(j as int),
            decreases line@.len() - j,
        {
            out.push(line[j]);
            j += 1;
            proof {
                assert(line@.take(j as int) =~= line@.take(j - 1) + seq![line@[j - 1]]);
            }
        }
        proof {
            assert(line@.take(line@.len() as int) =~= line@);
            let t = lines.take(i + 1);
            assert(t.drop_last() =~= lines.take(i as int));
            if i == 0 {
                assert(before =~= Seq::<char>::empty());
                assert(out@ =~= line@);
            }
        }
        i += 1;
    }
    string_of(&out)
}

} // verus!
