use vstd::prelude::*;

use crate::config::{Config, ConfigView};
use crate::models::{opt_chars, AppEntry, AppEntryView, FileEntry, FileEntryView};
use crate::runner::{strings, TerminalLaunch};
use crate::config::{next_choice, next_theme, size_down, size_up, toggled_language};
use crate::files::{enter_query, is_path_query, parent_query, path_query};
use crate::runner::terminal_plan;
use crate::search::{app_hits, file_hits, file_results, launcher_results};
use crate::text::{is_ws, trim, words, Chars};
use crate::web::search_url;
use crate::favorites::{bumped, dashboard, toggled};

verus! {

// ---------------------------------------------------------------------------
// Modes, runner state, messages
// ---------------------------------------------------------------------------

/// What the search bar is used for, decided by how the query starts.
#[derive(Debug, Clone, Copy, PartialEq, Eq, Structural)]
pub enum Mode {
    Launcher,
    CommandRunner,
    FileBrowser,
    Settings,
    Help,
    WebSearch,
    Calculator,
}

/// The state of the background command runner.
#[derive(Debug, Clone, PartialEq, Eq)]
pub enum RunnerState {
    Idle,
    Running { command: String },
    Finished { command: String, output: String },
    Failed { command: String, error: String },
}

/// The model of a [`RunnerState`].
pub enum RunnerView {
    Idle,
    Running { command: Chars },
    Finished { command: Chars, output: Chars },
    Failed { command: Chars, error: Chars },
}

impl View for RunnerState {
    type V = RunnerView;

    open spec fn view(&self) -> RunnerView {
        match self {
            RunnerState::Idle => RunnerView::Idle,
            RunnerState::Running { command } => RunnerView::Running { command: command@ },
            RunnerState::Finished { command, output } => RunnerView::Finished {
                command: command@,
                output: output@,
            },
            RunnerState::Failed { command, error } => RunnerView::Failed {
                command: command@,
                error: error@,
            },
        }
    }
}

/// The events the launcher reacts to.
#[derive(Debug)]
pub enum Message {
    QueryChanged(String),
    Submit,
    SubmitInTerminal,
    CommandFinished { command: String, result: Result<String, String> },
    Escape,
    ArrowUp,
    ArrowDown,
    ArrowLeft,
    ArrowRight,
    SelectEntry(usize),
    WindowFocused,
    ClearQuery,
    TogglePreview,
    ScrollPreviewUp,
    ScrollPreviewDown,
    ToggleFavorite,
    /// The files that a search of the home directory found for a pattern.
    FilesFound { pattern: String, entries: Vec<FileEntry> },
}

/// The model of a [`Message`].
pub enum MessageView {
    QueryChanged(Chars),
    Submit,
    SubmitInTerminal,
    CommandFinished { command: Chars, result: Result<Chars, Chars> },
    Escape,
    ArrowUp,
    ArrowDown,
    ArrowLeft,
    ArrowRight,
    SelectEntry(usize),
    WindowFocused,
    ClearQuery,
    TogglePreview,
    ScrollPreviewUp,
    ScrollPreviewDown,
    ToggleFavorite,
    FilesFound { pattern: Chars, entries: Seq<FileEntryView> },
}

impl View for Message {
    type V = MessageView;

    open spec fn view(&self) -> MessageView {
        match self {
            Message::QueryChanged(v) => MessageView::QueryChanged(v@),
            Message::Submit => MessageView::Submit,
            Message::SubmitInTerminal => MessageView::SubmitInTerminal,
            Message::CommandFinished { command, result } => MessageView::CommandFinished {
                command: command@,
                result: match result {
                    Ok(o) => Ok(o@),
                    Err(e) => Err(e@),
                },
            },
            Message::Escape => MessageView::Escape,
            Message::ArrowUp => MessageView::ArrowUp,
            Message::ArrowDown => MessageView::ArrowDown,
            Message::ArrowLeft => MessageView::ArrowLeft,
            Message::ArrowRight => MessageView::ArrowRight,
            Message::SelectEntry(i) => MessageView::SelectEntry(*i),
            Message::WindowFocused => MessageView::WindowFocused,
            Message::ClearQuery => MessageView::ClearQuery,
            Message::TogglePreview => MessageView::TogglePreview,
            Message::ScrollPreviewUp => MessageView::ScrollPreviewUp,
            Message::ScrollPreviewDown => MessageView::ScrollPreviewDown,
            Message::ToggleFavorite => MessageView::ToggleFavorite,
            Message::FilesFound { pattern, entries } => MessageView::FilesFound {
                pattern: pattern@,
                entries: entries@.map_values(|e: FileEntry| e@),
            },
        }
    }
}

// ---------------------------------------------------------------------------
// Effects: what the program around the library does for it
// ---------------------------------------------------------------------------

/// An icon to look up for a shown result.
#[derive(Debug)]
pub struct IconRequest {
    /// The position of the result in the shown list.
    pub slot: usize,
    /// The icon name to look up.
    pub name: String,
}

/// Outside work that the launcher asks for, in the order given.
#[derive(Debug)]
pub enum Effect {
    /// Quit the launcher.
    Exit,
    /// Start a program detached from the launcher: `argv[0]` with the rest as arguments.
    Launch { argv: Vec<String> },
    /// Open a file or folder with the system's default application.
    OpenPath { path: String },
    /// Open a web address, in the preferred browser when one is set.
    OpenUrl { url: String, browser: Option<String> },
    /// Run a shell command in the background and report it with `CommandFinished`.
    RunInBackground { command: String },
    /// Start a terminal emulator with these arguments.
    RunInTerminal { launch: TerminalLaunch },
    /// Write the configuration file.
    SaveConfig,
    /// Step the window opacity down (at least 0.1) or up (at most 1.0) by 0.05, then save.
    AdjustOpacity { up: bool },
    /// Scroll the result list so that entry `index` of `total` shows.
    SnapList { index: usize, total: usize },
    /// Scroll the shortcuts cheatsheet by one step.
    ScrollHelp { down: bool },
    /// Scroll the file preview by one step.
    ScrollPreview { down: bool },
    /// Put the cursor of the search bar at the end.
    MoveCursorToEnd,
    /// Give the search bar the keyboard focus.
    FocusInput,
    /// List the directory and hand its entries to `directory_listed`.
    ListDirectory { path: String },
    /// Search the files under `root` whose names match `pattern`, and hand them back with
    /// `FilesFound`.
    SearchFiles { pattern: String, root: String },
    /// Work out the arithmetic expression and copy its result to the clipboard.
    CopyCalculation { expression: String },
    /// Look up these icons and hand each path found to `set_app_icon`.
    ResolveAppIcons { requests: Vec<IconRequest> },
    /// Look up these icons and hand each path found to `set_file_icon`.
    ResolveFileIcons { requests: Vec<IconRequest> },
}

/// The model of an [`Effect`].
pub enum EffectView {
    Exit,
    Launch { argv: Seq<Chars> },
    OpenPath { path: Chars },
    OpenUrl { url: Chars, browser: Option<Chars> },
    RunInBackground { command: Chars },
    RunInTerminal { program: Chars, args: Seq<Chars> },
    SaveConfig,
    AdjustOpacity { up: bool },
    SnapList { index: usize, total: usize },
    ScrollHelp { down: bool },
    ScrollPreview { down: bool },
    MoveCursorToEnd,
    FocusInput,
    ListDirectory { path: Chars },
    SearchFiles { pattern: Chars, root: Chars },
    CopyCalculation { expression: Chars },
    ResolveAppIcons { requests: Seq<(usize, Chars)> },
    ResolveFileIcons { requests: Seq<(usize, Chars)> },
}

/// The models of icon requests.
pub open spec fn request_views(v: Seq<IconRequest>) -> Seq<(usize, Chars)> {
    v.map_values(|r: IconRequest| (r.slot, r.name@))
}

impl View for Effect {
    type V = EffectView;

    open spec fn view(&self) -> EffectView {
        match self {
            Effect::Exit => EffectView::Exit,
            Effect::Launch { argv } => EffectView::Launch { argv: strings(argv@) },
            Effect::OpenPath { path } => EffectView::OpenPath { path: path@ },
            Effect::OpenUrl { url, browser } => EffectView::OpenUrl {
                url: url@,
                browser: opt_chars(*browser),
            },
            Effect::RunInBackground { command } => EffectView::RunInBackground { command: command@ },
            Effect::RunInTerminal { launch } => EffectView::RunInTerminal {
                program: launch.program@,
                args: strings(launch.args@),
            },
            Effect::SaveConfig => EffectView::SaveConfig,
            Effect::AdjustOpacity { up } => EffectView::AdjustOpacity { up: *up },
            Effect::SnapList { index, total } => EffectView::SnapList {
                index: *index,
                total: *total,
            },
            Effect::ScrollHelp { down } => EffectView::ScrollHelp { down: *down },
            Effect::ScrollPreview { down } => EffectView::ScrollPreview { down: *down },
            Effect::MoveCursorToEnd => EffectView::MoveCursorToEnd,
            Effect::FocusInput => EffectView::FocusInput,
            Effect::ListDirectory { path } => EffectView::ListDirectory { path: path@ },
            Effect::SearchFiles { pattern, root } => EffectView::SearchFiles {
                pattern: pattern@,
                root: root@,
            },
            Effect::CopyCalculation { expression } => EffectView::CopyCalculation {
                expression: expression@,
            },
            Effect::ResolveAppIcons { requests } => EffectView::ResolveAppIcons {
                requests: request_views(requests@),
            },
            Effect::ResolveFileIcons { requests } => EffectView::ResolveFileIcons {
                requests: request_views(requests@),
            },
        }
    }
}

/// The models of a list of effects.
pub open spec fn effect_views(v: Seq<Effect>) -> Seq<EffectView> {
    v.map_values(|e: Effect| e@)
}

// ---------------------------------------------------------------------------
// The environment and the launcher state
// ---------------------------------------------------------------------------

/// What the launcher reads from its surroundings.
#[derive(Debug)]
pub struct Environment {
    /// The value of `HOME`, when it is set.
    pub home: Option<String>,
    /// The terminal emulators offered in the settings (`Auto` first).
    pub terminals: Vec<String>,
    /// The web browsers offered in the settings (`Auto` first).
    pub browsers: Vec<String>,
}

/// The model of an [`Environment`].
pub struct EnvironmentView {
    pub home: Option<Chars>,
    pub terminals: Seq<Chars>,
    pub browsers: Seq<Chars>,
}

impl View for Environment {
    type V = EnvironmentView;

    open spec fn view(&self) -> EnvironmentView {
        EnvironmentView {
            home: opt_chars(self.home),
            terminals: strings(self.terminals@),
            browsers: strings(self.browsers@),
        }
    }
}

/// The home directory that path queries expand `~` to (a fixed one when `HOME` is unset).
pub open spec fn path_home(env: EnvironmentView) -> Chars {
    match env.home {
        Some(h) => h,
        None => "/home/alvaro"@,
    }
}

/// The home directory written as `~` in the search bar (none when `HOME` is unset).
pub open spec fn display_home(env: EnvironmentView) -> Chars {
    match env.home {
        Some(h) => h,
        None => Seq::empty(),
    }
}

/// The launcher's state.
#[derive(Debug)]
pub struct CastIt {
    pub query: String,
    pub all_entries: Vec<AppEntry>,
    /// The shown launcher results with their scores.
    pub filtered_entries: Vec<(AppEntry, u32)>,
    pub selected_index: usize,
    pub mode: Mode,
    pub runner_state: RunnerState,
    pub config: Config,
    /// 0: Theme, 1: Terminal, 2: Opacity, 3: Width, 4: Height, 5: Language, 6: Browser
    pub selected_setting: usize,
    /// The directory whose entries `directory_entries` holds.
    pub current_parent_dir: String,
    pub directory_entries: Vec<FileEntry>,
    /// The shown file browser results with their scores.
    pub filtered_files: Vec<(FileEntry, u32)>,
    pub preview_active: bool,
}

/// The model of a [`CastIt`].
pub struct CastItView {
    pub query: Chars,
    pub all_entries: Seq<AppEntryView>,
    pub filtered_entries: Seq<(AppEntryView, u32)>,
    pub selected_index: usize,
    pub mode: Mode,
    pub runner_state: RunnerView,
    pub config: ConfigView,
    pub selected_setting: usize,
    pub current_parent_dir: Chars,
    pub directory_entries: Seq<FileEntryView>,
    pub filtered_files: Seq<(FileEntryView, u32)>,
    pub preview_active: bool,
}

impl View for CastIt {
    type V = CastItView;

    open spec fn view(&self) -> CastItView {
        CastItView {
            query: self.query@,
            all_entries: self.all_entries@.map_values(|e: AppEntry| e@),
            filtered_entries: app_hits(self.filtered_entries@),
            selected_index: self.selected_index,
            mode: self.mode,
            runner_state: self.runner_state@,
            config: self.config@,
            selected_setting: self.selected_setting,
            current_parent_dir: self.current_parent_dir@,
            directory_entries: self.directory_entries@.map_values(|e: FileEntry| e@),
            filtered_files: file_hits(self.filtered_files@),
            preview_active: self.preview_active,
        }
    }
}

// ---------------------------------------------------------------------------
// What each event does: the model
// ---------------------------------------------------------------------------

/// Every application name and description and every listed file name fits the fuzzy
/// matcher's limit.
pub open spec fn names_fit(s: CastItView) -> bool {
    &&& forall|i: int| 0 <= i < s.all_entries.len() ==> crate::search::entry_fits(#[trigger] s.all_entries[i])
    &&& forall|i: int| 0 <= i < s.directory_entries.len() ==> (#[trigger] s.directory_entries[i]).name.len() <= u32::MAX
}

/// The icons to look up for launcher results: each result that has no icon path
/// but names an icon, with its position.
pub open spec fn app_icon_requests(hits: Seq<(AppEntryView, u32)>) -> Seq<(usize, Chars)>
    decreases hits.len(),
{
    if hits.len() == 0 {
        Seq::empty()
    } else {
        let rest = app_icon_requests(hits.drop_last());
        match (hits.last().0.icon_path, hits.last().0.icon) {
            (None, Some(n)) => rest.push(((hits.len() - 1) as usize, n)),
            _ => rest,
        }
    }
}

/// The icon name shown for a file browser result.
pub open spec fn file_icon_name(is_dir: bool) -> Chars {
    if is_dir {
        "folder"@
    } else {
        "text-x-generic"@
    }
}

/// The icons to look up for file browser results: each result that has no icon path.
pub open spec fn file_icon_requests(hits: Seq<(FileEntryView, u32)>) -> Seq<(usize, Chars)>
    decreases hits.len(),
{
    if hits.len() == 0 {
        Seq::empty()
    } else {
        let rest = file_icon_requests(hits.drop_last());
        match hits.last().0.icon_path {
            None => rest.push(((hits.len() - 1) as usize, file_icon_name(hits.last().0.is_dir))),
            _ => rest,
        }
    }
}

/// Recomputes the launcher results for the query (the dashboard for an empty one), and
/// asks for their icons.
pub open spec fn refresh_entries(s: CastItView) -> (CastItView, Seq<EffectView>) {
    let hits = if s.query.len() == 0 {
        dashboard(s.all_entries, s.config.favorites, s.config.history)
    } else {
        launcher_results(s.query, s.all_entries)
    };
    (
        CastItView { filtered_entries: hits, ..s },
        seq![EffectView::ResolveAppIcons { requests: app_icon_requests(hits) }],
    )
}

/// Recomputes the file browser results for the query: when the query names another
/// directory than the listed one, it asks for that directory's listing and shows
/// nothing until it comes; else it filters the listing and asks for the icons.
pub open spec fn refresh_files(s: CastItView, env: EnvironmentView) -> (CastItView, Seq<EffectView>) {
    let cleared = CastItView { filtered_files: Seq::empty(), ..s };
    match path_query(s.query, path_home(env)) {
        None => (cleared, Seq::empty()),
        Some((parent, filter)) => if parent != s.current_parent_dir {
            (cleared, seq![EffectView::ListDirectory { path: parent }])
        } else {
            let hits = file_results(filter, s.directory_entries);
            (
                CastItView { filtered_files: hits, ..s },
                seq![EffectView::ResolveFileIcons { requests: file_icon_requests(hits) }],
            )
        },
    }
}

/// Launching the selected result: its launch is counted and saved, its `Exec` words
/// are started (when there are any) and the launcher quits; nothing happens when no
/// result is selected.
pub open spec fn launched(s: CastItView) -> (CastItView, Seq<EffectView>) {
    if s.selected_index < s.filtered_entries.len() {
        let command = s.filtered_entries[s.selected_index as int].0.command;
        let argv = words(command);
        let t = CastItView {
            config: ConfigView { history: bumped(s.config.history, command), ..s.config },
            ..s
        };
        if argv.len() > 0 {
            (t, seq![EffectView::SaveConfig, EffectView::Launch { argv: argv }, EffectView::Exit])
        } else {
            (t, seq![EffectView::SaveConfig, EffectView::Exit])
        }
    } else {
        (s, Seq::empty())
    }
}

/// Toggling the selected launcher result as a favourite, and saving it.
pub open spec fn favorite_toggled(s: CastItView) -> (CastItView, Seq<EffectView>) {
    if s.mode == Mode::Launcher && s.selected_index < s.filtered_entries.len() {
        let command = s.filtered_entries[s.selected_index as int].0.command;
        (
            CastItView {
                config: ConfigView { favorites: toggled(s.config.favorites, command), ..s.config },
                ..s
            },
            seq![EffectView::SaveConfig],
        )
    } else {
        (s, Seq::empty())
    }
}

/// `q` without one leading `c`.
pub open spec fn without_lead(q: Chars, c: char) -> Chars {
    if q.len() > 0 && q[0] == c {
        q.drop_first()
    } else {
        q
    }
}

/// The command typed after `>`.
pub open spec fn runner_command(q: Chars) -> Chars {
    trim(without_lead(q, '>'))
}

/// The search typed after `?`.
pub open spec fn web_query(q: Chars) -> Chars {
    trim(without_lead(q, '?'))
}

/// A new query: it chooses the mode by how it starts (`??` help, `..` settings,
/// `>` command, `?` web search, `/` or `~` files, anything else the launcher) and
/// refreshes the results of the file browser or the launcher.
pub open spec fn query_changed(s: CastItView, v: Chars, env: EnvironmentView) -> (CastItView, Seq<EffectView>) {
    let s1 = CastItView { query: v, selected_index: 0, preview_active: false, ..s };
    if "??"@.is_prefix_of(v) {
        (CastItView { mode: Mode::Help, ..s1 }, Seq::empty())
    } else if ".."@.is_prefix_of(v) {
        (CastItView { mode: Mode::Settings, ..s1 }, Seq::empty())
    } else if v.len() > 0 && v[0] == '>' {
        let runner = if trim(v) == ">"@ {
            RunnerView::Idle
        } else {
            s.runner_state
        };
        (CastItView { mode: Mode::CommandRunner, runner_state: runner, ..s1 }, Seq::empty())
    } else if v.len() > 0 && v[0] == '?' {
        (CastItView { mode: Mode::WebSearch, ..s1 }, Seq::empty())
    } else if "f "@.is_prefix_of(v) {
        let p = trim(v.skip(2));
        (
            CastItView { mode: Mode::FileBrowser, filtered_files: Seq::empty(), ..s1 },
            if p.len() > 0 {
                seq![EffectView::SearchFiles { pattern: p, root: path_home(env) }]
            } else {
                Seq::empty()
            },
        )
    } else if is_path_query(v) {
        refresh_files(CastItView { mode: Mode::FileBrowser, ..s1 }, env)
    } else if looks_arithmetic(v) {
        (CastItView { mode: Mode::Calculator, ..s1 }, Seq::empty())
    } else {
        refresh_entries(CastItView { mode: Mode::Launcher, runner_state: RunnerView::Idle, ..s1 })
    }
}

/// The pattern of a search of the home directory: what follows `f `, trimmed.
pub open spec fn global_pattern(q: Chars) -> Option<Chars> {
    if "f "@.is_prefix_of(q) {
        Some(trim(q.skip(2)))
    } else {
        None
    }
}

/// The files a search of the home directory found: shown, best matches first, when the
/// search bar still asks for that search; ignored otherwise.
pub open spec fn files_found(s: CastItView, pattern: Chars, entries: Seq<FileEntryView>) -> (
    CastItView,
    Seq<EffectView>,
) {
    if s.mode == Mode::FileBrowser && global_pattern(s.query) == Some(pattern) {
        let hits = file_results(pattern, entries);
        (
            CastItView { filtered_files: hits, ..s },
            seq![EffectView::ResolveFileIcons { requests: file_icon_requests(hits) }],
        )
    } else {
        (s, Seq::empty())
    }
}

/// Every file a message brings has a name within the fuzzy matcher's limit.
pub open spec fn message_fits(m: MessageView) -> bool {
    match m {
        MessageView::FilesFound { entries, .. } => forall|i: int|
            0 <= i < entries.len() ==> (#[trigger] entries[i]).name.len() <= u32::MAX,
        _ => true,
    }
}

/// A character that an arithmetic expression may hold: a digit, a decimal point, an
/// operator, a bracket or whitespace.
pub open spec fn is_calc_char(c: char) -> bool {
    ('0' <= c && c <= '9') || c == '.' || is_operator(c) || c == '(' || c == ')' || is_ws(c)
}

/// An arithmetic operator.
pub open spec fn is_operator(c: char) -> bool {
    c == '+' || c == '-' || c == '*' || c == '/' || c == '%'
}

/// Whether a query is an arithmetic expression for the calculator: only digits,
/// decimal points, operators, brackets and whitespace, with at least one digit and at
/// least one operator.
pub open spec fn looks_arithmetic(q: Chars) -> bool {
    &&& forall|i: int| 0 <= i < q.len() ==> is_calc_char(#[trigger] q[i])
    &&& exists|i: int| 0 <= i < q.len() && '0' <= #[trigger] q[i] && q[i] <= '9'
    &&& exists|i: int| 0 <= i < q.len() && is_operator(#[trigger] q[i])
}

/// Enter: launch the selected application, start the typed command in the background,
/// open the selected file, or search the web, by mode.
pub open spec fn submitted(s: CastItView) -> (CastItView, Seq<EffectView>) {
    match s.mode {
        Mode::Launcher => launched(s),
        Mode::CommandRunner => {
            let cmd = runner_command(s.query);
            if cmd.len() > 0 {
                (
                    CastItView { runner_state: RunnerView::Running { command: cmd }, query: "> "@, ..s },
                    seq![EffectView::RunInBackground { command: cmd }],
                )
            } else {
                (s, Seq::empty())
            }
        },
        Mode::FileBrowser => if s.selected_index < s.filtered_files.len() {
            (
                s,
                seq![
                    EffectView::OpenPath { path: s.filtered_files[s.selected_index as int].0.path },
                    EffectView::Exit,
                ],
            )
        } else {
            (s, Seq::empty())
        },
        Mode::WebSearch => {
            let q = web_query(s.query);
            if q.len() > 0 {
                (
                    s,
                    seq![
                        EffectView::OpenUrl { url: search_url(q), browser: s.config.browser },
                        EffectView::Exit,
                    ],
                )
            } else {
                (s, Seq::empty())
            }
        },
        Mode::Calculator => (
            s,
            seq![EffectView::CopyCalculation { expression: trim(s.query) }, EffectView::Exit],
        ),
        _ => (s, Seq::empty()),
    }
}

/// Ctrl+Enter in command mode: run the typed command in a terminal and quit.
pub open spec fn submitted_in_terminal(s: CastItView, env: EnvironmentView) -> Seq<EffectView> {
    let cmd = runner_command(s.query);
    if s.mode == Mode::CommandRunner && cmd.len() > 0 {
        match terminal_plan(cmd, s.config.terminal, env.terminals) {
            Ok((t, args)) => seq![EffectView::RunInTerminal { program: t, args: args }, EffectView::Exit],
            Err(_) => seq![EffectView::Exit],
        }
    } else {
        Seq::empty()
    }
}

/// Moving down a result list of `n` entries.
pub open spec fn list_down(s: CastItView, n: int) -> (CastItView, Seq<EffectView>) {
    if n > 0 {
        let i = if s.selected_index + 1 < n {
            (s.selected_index + 1) as usize
        } else {
            (n - 1) as usize
        };
        (
            CastItView { selected_index: i, ..s },
            if n > 1 {
                seq![EffectView::SnapList { index: i, total: n as usize }]
            } else {
                Seq::empty()
            },
        )
    } else {
        (s, Seq::empty())
    }
}

/// Moving up a result list of `n` entries.
pub open spec fn list_up(s: CastItView, n: int) -> (CastItView, Seq<EffectView>) {
    let i = if s.selected_index > 0 {
        (s.selected_index - 1) as usize
    } else {
        0usize
    };
    (
        CastItView { selected_index: i, ..s },
        if n > 1 {
            seq![EffectView::SnapList { index: i, total: n as usize }]
        } else {
            Seq::empty()
        },
    )
}

/// The index of the last settings item (Browser).
pub open spec fn last_setting() -> usize {
    6
}

/// Changing the selected setting one step up (`up`) or down, and saving it.
pub open spec fn setting_changed(s: CastItView, env: EnvironmentView, up: bool) -> (CastItView, Seq<EffectView>) {
    let dir: i32 = if up {
        1i32
    } else {
        -1i32
    };
    let c = s.config;
    let save = seq![EffectView::SaveConfig];
    if s.selected_setting == 0 {
        (CastItView { config: ConfigView { theme: Some(next_theme(c.theme, dir)), ..c }, ..s }, save)
    } else if s.selected_setting == 1 {
        (
            CastItView {
                config: ConfigView { terminal: next_choice(env.terminals, c.terminal, dir), ..c },
                ..s
            },
            save,
        )
    } else if s.selected_setting == 2 {
        (s, seq![EffectView::AdjustOpacity { up: up }])
    } else if s.selected_setting == 3 {
        let w = c.width.unwrap_or(800);
        let nw = if up {
            size_up(w, 50, 1920)
        } else {
            size_down(w, 50, 400)
        };
        (CastItView { config: ConfigView { width: Some(nw), ..c }, ..s }, save)
    } else if s.selected_setting == 4 {
        let h = c.height.unwrap_or(500);
        let nh = if up {
            size_up(h, 50, 1080)
        } else {
            size_down(h, 50, 300)
        };
        (CastItView { config: ConfigView { height: Some(nh), ..c }, ..s }, save)
    } else if s.selected_setting == 5 {
        (CastItView { config: ConfigView { language: Some(toggled_language(c.language)), ..c }, ..s }, save)
    } else if s.selected_setting == 6 {
        (
            CastItView {
                config: ConfigView { browser: next_choice(env.browsers, c.browser, dir), ..c },
                ..s
            },
            save,
        )
    } else {
        (s, Seq::empty())
    }
}

/// Showing the folder a new query names, with the cursor at its end.
pub open spec fn browse_to(s: CastItView, q: Chars, env: EnvironmentView) -> (CastItView, Seq<EffectView>) {
    let r = refresh_files(CastItView { query: q, selected_index: 0, ..s }, env);
    (r.0, r.1.push(EffectView::MoveCursorToEnd))
}

/// What one event does to the launcher, and the outside work it asks for.
pub open spec fn step(s: CastItView, m: MessageView, env: EnvironmentView) -> (CastItView, Seq<EffectView>) {
    match m {
        MessageView::ClearQuery => refresh_entries(
            CastItView {
                query: Seq::empty(),
                selected_index: 0,
                mode: Mode::Launcher,
                runner_state: RunnerView::Idle,
                preview_active: false,
                filtered_entries: Seq::empty(),
                filtered_files: Seq::empty(),
                ..s
            },
        ),
        MessageView::QueryChanged(v) => query_changed(s, v, env),
        MessageView::Submit => submitted(s),
        MessageView::SubmitInTerminal => (s, submitted_in_terminal(s, env)),
        MessageView::CommandFinished { command, result } => (
            CastItView {
                runner_state: match result {
                    Ok(output) => RunnerView::Finished { command: command, output: output },
                    Err(error) => RunnerView::Failed { command: command, error: error },
                },
                ..s
            },
            Seq::empty(),
        ),
        MessageView::Escape => (s, seq![EffectView::Exit]),
        MessageView::ArrowDown => match s.mode {
            Mode::Launcher => list_down(s, s.filtered_entries.len() as int),
            Mode::FileBrowser => list_down(s, s.filtered_files.len() as int),
            Mode::Help => (s, seq![EffectView::ScrollHelp { down: true }]),
            Mode::Settings => (
                CastItView {
                    selected_setting: if s.selected_setting < last_setting() {
                        (s.selected_setting + 1) as usize
                    } else {
                        last_setting()
                    },
                    ..s
                },
                Seq::empty(),
            ),
            _ => (s, Seq::empty()),
        },
        MessageView::ArrowUp => match s.mode {
            Mode::Launcher => list_up(s, s.filtered_entries.len() as int),
            Mode::FileBrowser => list_up(s, s.filtered_files.len() as int),
            Mode::Settings => (
                CastItView {
                    selected_setting: if s.selected_setting > 0 {
                        (s.selected_setting - 1) as usize
                    } else {
                        0usize
                    },
                    ..s
                },
                Seq::empty(),
            ),
            Mode::Help => (s, seq![EffectView::ScrollHelp { down: false }]),
            _ => (s, Seq::empty()),
        },
        MessageView::ArrowLeft => if s.mode == Mode::Settings {
            setting_changed(s, env, false)
        } else if s.mode == Mode::FileBrowser {
            match parent_query(s.query, display_home(env)) {
                Some(q) => browse_to(s, q, env),
                None => (s, Seq::empty()),
            }
        } else {
            (s, Seq::empty())
        },
        MessageView::ArrowRight => if s.mode == Mode::Settings {
            setting_changed(s, env, true)
        } else if s.mode == Mode::FileBrowser && s.selected_index < s.filtered_files.len()
            && s.filtered_files[s.selected_index as int].0.is_dir {
            browse_to(
                s,
                enter_query(s.filtered_files[s.selected_index as int].0.path, display_home(env)),
                env,
            )
        } else {
            (s, Seq::empty())
        },
        MessageView::TogglePreview => if s.mode == Mode::FileBrowser && s.filtered_files.len() > 0 {
            (CastItView { preview_active: !s.preview_active, ..s }, Seq::empty())
        } else {
            (s, Seq::empty())
        },
        MessageView::ScrollPreviewUp => if s.mode == Mode::FileBrowser && s.preview_active {
            (s, seq![EffectView::ScrollPreview { down: false }])
        } else {
            (s, Seq::empty())
        },
        MessageView::ScrollPreviewDown => if s.mode == Mode::FileBrowser && s.preview_active {
            (s, seq![EffectView::ScrollPreview { down: true }])
        } else {
            (s, Seq::empty())
        },
        MessageView::SelectEntry(i) => if s.mode == Mode::Launcher {
            launched(CastItView { selected_index: i, ..s })
        } else {
            (s, Seq::empty())
        },
        MessageView::WindowFocused => (s, seq![EffectView::FocusInput]),
        MessageView::ToggleFavorite => favorite_toggled(s),
        MessageView::FilesFound { pattern, entries } => files_found(s, pattern, entries),
    }
}

} // verus!
