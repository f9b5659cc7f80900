use vstd::prelude::*;

use crate::config::{
    adjust_height, adjust_width, cycle_browser, cycle_terminal, cycle_theme, toggle_language,
    Config, ConfigView,
};
use crate::files::{go_into_query, go_up_query, parse_path_query, sort_listing, sorted_listing};
use crate::models::{AppEntry, FileEntry};
use crate::runner::{command_words, terminal_launch};
use crate::search::{app_hits, file_hits, file_matches, launcher_matches};
use crate::state::{
    app_icon_requests, browse_to, display_home, effect_views, file_icon_name, file_icon_requests,
    favorite_toggled, files_found, is_calc_char, is_operator, looks_arithmetic, launched, list_down, message_fits, list_up, names_fit, path_home, query_changed, refresh_entries,
    refresh_files, request_views, runner_command, setting_changed, step, submitted,
    submitted_in_terminal, web_query, without_lead, CastIt, CastItView, Effect, EffectView,
    Environment, IconRequest, Message, MessageView, Mode, RunnerState, RunnerView,
};
use crate::text::{chars_eq, chars_of, first_is, slice_chars, starts_with, string_of, trim_chars, Chars};
use crate::web::web_search_url;
use crate::favorites::{dashboard_entries, record_launch, toggle_favorite};

verus! {

/// The state the launcher starts in.
pub open spec fn initial_state(all_entries: Seq<crate::models::AppEntryView>, config: ConfigView) -> CastItView {
    CastItView {
        query: Seq::empty(),
        all_entries: all_entries,
        filtered_entries: Seq::empty(),
        selected_index: 0,
        mode: Mode::Launcher,
        runner_state: RunnerView::Idle,
        config: config,
        selected_setting: 0,
        current_parent_dir: Seq::empty(),
        directory_entries: Seq::empty(),
        filtered_files: Seq::empty(),
        preview_active: false,
    }
}

fn app_requests(hits: &Vec<(AppEntry, u32)>) -> (r: Vec<IconRequest>)
    ensures
        request_views(r@) == app_icon_requests(app_hits(hits@)),
{
    let ghost hs = app_hits(hits@);
    let mut out: Vec<IconRequest> = Vec::new();
    let mut i: usize = 0;
    while i < hits.len()
        invariant
            i <= hits@.len(),
            hs == app_hits(hits@),
            request_views(out@) == app_icon_requests(hs.take(i as int)),
        decreases hits@.len() - i,
    {
        proof {
            assert(hs.take(i + 1).drop_last() =~= hs.take(i as int));
            assert(hs.take(i + 1).last() == hs[i as int]);
        }
        let ghost before = request_views(out@);
        if hits[i].0.icon_path.is_none() {
            match &hits[i].0.icon {
                Some(n) => {
                    out.push(IconRequest { slot: i, name: n.clone() });
                    proof {
                        assert(request_views(out@) =~= before.push((i, n@)));
                    }
                },
                None => {},
            }
        }
        i += 1;
    }
    proof {
        assert(hs.take(hits@.len() as int) =~= hs);
    }
    out
}

fn file_requests(hits: &Vec<(FileEntry, u32)>) -> (r: Vec<IconRequest>)
    ensures
        request_views(r@) == file_icon_requests(file_hits(hits@)),
{
    let ghost hs = file_hits(hits@);
    let mut out: Vec<IconRequest> = Vec::new();
    let mut i: usize = 0;
    while i < hits.len()
        invariant
            i <= hits@.len(),
            hs == file_hits(hits@),
            request_views(out@) == file_icon_requests(hs.take(i as int)),
        decreases hits@.len() - i,
    {
        proof {
            assert(hs.take(i + 1).drop_last() =~= hs.take(i as int));
            assert(hs.take(i + 1).last() == hs[i as int]);
        }
        let ghost before = request_views(out@);
        if hits[i].0.icon_path.is_none() {
            let name = if hits[i].0.is_dir {
                "folder".to_owned()
            } else {
                "text-x-generic".to_owned()
            };
            out.push(IconRequest { slot: i, name });
            proof {
                assert(request_views(out@) =~= before.push((i, file_icon_name(hits@[i as int].0.is_dir))));
            }
        }
        i += 1;
    }
    proof {
        assert(hs.take(hits@.len() as int) =~= hs);
    }
    out
}

/// Copies the optional text of an environment's home, or a fallback.
fn home_or(env: &Environment, fallback: &str) -> (r: String)
    ensures
        r@ == match env@.home {
            Some(h) => h,
            None => fallback@,
        },
{
    match &env.home {
        Some(h) => h.clone(),
        None => fallback.to_owned(),
    }
}

/// Whether a query is an arithmetic expression for the calculator.
pub fn is_arithmetic(q: &Vec<char>) -> (r: bool)
    ensures
        r == looks_arithmetic(q@),
{
    let mut digit = false;
    let mut operator = false;
    let mut i: usize = 0;
    while i < q.len()
        invariant
            i <= q@.len(),
            forall|j: int| 0 <= j < i ==> is_calc_char(#[trigger] q@[j]),
            digit == exists|j: int| 0 <= j < i && '0' <= #[trigger] q@[j] && q@[j] <= '9',
            operator == exists|j: int| 0 <= j < i && is_operator(#[trigger] q@[j]),
        decreases q@.len() - i,
    {
        let c = q[i];
        let op = c == '+' || c == '-' || c == '*' || c == '/' || c == '%';
        let d = '0' <= c && c <= '9';
        if !(d || c == '.' || op || c == '(' || c == ')' || crate::text::is_whitespace(c)) {
            assert(!is_calc_char(q@[i as int]));
            return false;
        }
        if d {
            digit = true;
        }
        if op {
            operator = true;
        }
        i += 1;
    }
    digit && operator
}

fn without_lead_chars(q: &Vec<char>, c: char) -> (r: Vec<char>)
    ensures
        r@ == without_lead(q@, c),
{
    if first_is(q, c) {
        slice_chars(q, 1, q.len())
    } else {
        q.clone()
    }
}

impl CastIt {
    /// The launcher state at start: the application list and the loaded settings.
    pub fn new(all_entries: Vec<AppEntry>, config: Config) -> (r: CastIt)
        ensures
            r@ == initial_state(all_entries@.map_values(|e: AppEntry| e@), config@),
    {
        let r = CastIt {
            query: String::new(),
            all_entries,
            filtered_entries: Vec::new(),
            selected_index: 0,
            mode: Mode::Launcher,
            runner_state: RunnerState::Idle,
            config,
            selected_setting: 0,
            current_parent_dir: String::new(),
            directory_entries: Vec::new(),
            filtered_files: Vec::new(),
            preview_active: false,
        };
        proof {
            assert(app_hits(r.filtered_entries@) =~= Seq::empty());
            assert(r.directory_entries@.map_values(|e: FileEntry| e@) =~= Seq::empty());
            assert(file_hits(r.filtered_files@) =~= Seq::empty());
        }
        r
    }

    /// Runs the launcher's fuzzy search for the current query.
    pub fn update_filtered_entries(&mut self) -> (r: Vec<Effect>)
        requires
            names_fit(old(self)@),
        ensures
            (final(self)@, effect_views(r@)) == refresh_entries(old(self)@),
    {
        proof {
            assert forall|i: int| 0 <= i < self.all_entries@.len() implies crate::search::entry_fits(#[trigger] self.all_entries@[i]@) by {
                assert(self@.all_entries[i] == self.all_entries@[i]@);
            }
        }
        let hits = if self.query.as_str().is_empty() {
            proof {
                reveal_strlit("");
            }
            dashboard_entries(&self.all_entries, &self.config.favorites, &self.config.history)
        } else {
            launcher_matches(self.query.as_str(), &self.all_entries)
        };
        let requests = app_requests(&hits);
        self.filtered_entries = hits;
        let mut out: Vec<Effect> = Vec::new();
        out.push(Effect::ResolveAppIcons { requests });
        proof {
            assert(effect_views(out@) =~= refresh_entries(old(self)@).1);
        }
        out
    }

    /// Filters the listed directory for the current path query, or asks for the listing
    /// of the directory the query names.
    pub fn update_filtered_files(&mut self, env: &Environment) -> (r: Vec<Effect>)
        requires
            names_fit(old(self)@),
        ensures
            (final(self)@, effect_views(r@)) == refresh_files(old(self)@, env@),
    {
        self.filtered_files = Vec::new();
        let mut out: Vec<Effect> = Vec::new();
        let home = home_or(env, "/home/alvaro");
        proof {
            assert(file_hits(self.filtered_files@) =~= Seq::empty());
        }
        match parse_path_query(self.query.as_str(), home.as_str()) {
            None => {
                proof {
                    assert(effect_views(out@) =~= Seq::empty());
                }
            },
            Some((parent, filter)) => {
                if !chars_eq(&chars_of(parent.as_str()), &chars_of(self.current_parent_dir.as_str())) {
                    out.push(Effect::ListDirectory { path: parent });
                    proof {
                        assert(effect_views(out@) =~= refresh_files(old(self)@, env@).1);
                    }
                } else {
                    proof {
                        assert forall|i: int| 0 <= i < self.directory_entries@.len() implies (#[trigger] self.directory_entries@[i]).name@.len() <= u32::MAX by {
                            assert(old(self)@.directory_entries[i] == self.directory_entries@[i]@);
                        }
                    }
                    let hits = file_matches(filter.as_str(), &self.directory_entries);
                    let requests = file_requests(&hits);
                    self.filtered_files = hits;
                    out.push(Effect::ResolveFileIcons { requests });
                    proof {
                        assert(effect_views(out@) =~= refresh_files(old(self)@, env@).1);
                    }
                }
            },
        }
        out
    }

    /// Takes the listing of `parent` that an earlier `ListDirectory` asked for: the
    /// listing is sorted (directories first, then by lowercased name) and filtered.
    pub fn directory_listed(&mut self, parent: String, entries: Vec<FileEntry>, env: &Environment) -> (r: Vec<Effect>)
        requires
            names_fit(old(self)@),
            forall|i: int| 0 <= i < entries@.len() ==> (#[trigger] entries@[i]).name@.len() <= u32::MAX,
        ensures
            names_fit(final(self)@),
            (final(self)@, effect_views(r@)) == refresh_files(
                CastItView {
                    current_parent_dir: parent@,
                    directory_entries: sorted_listing(entries@.map_values(|e: FileEntry| e@)),
                    ..old(self)@
                },
                env@,
            ),
    {
        let sorted = sort_listing(&entries);
        proof {
            let es = entries@.map_values(|e: FileEntry| e@);
            let keys = crate::files::listing_keys(es);
            let sk = crate::sort::sorted_keys(keys);
            crate::sort::lemma_sorted_keys_len(keys);
            let sv = sorted@.map_values(|e: FileEntry| e@);
            assert(sv == sk.map_values(|k: crate::sort::KeyView| es[k.2 as int]));
            assert(sv.len() == sorted@.len());
            assert forall|i: int| 0 <= i < sorted@.len() implies (#[trigger] sorted@[i]).name@.len() <= u32::MAX by {
                assert(i < sk.len());
                let k = sk[i];
                crate::sort::lemma_sorted_keys_contains(keys, i);
                let j = choose|j: int| 0 <= j < keys.len() && keys[j] == k;
                assert(sv[i] == es[k.2 as int]);
                assert(sv[i] == sorted@[i]@);
                assert(k.2 == j);
                assert(es[j] == entries@[j]@);
            }
        }
        self.current_parent_dir = parent;
        self.directory_entries = sorted;
        proof {
            assert forall|i: int| 0 <= i < self@.directory_entries.len() implies (#[trigger] self@.directory_entries[i]).name.len() <= u32::MAX by {
                assert(self@.directory_entries[i] == sorted@[i]@);
            }
        }
        self.update_filtered_files(env)
    }

    /// Sets the icon path found for the launcher result at `slot`.
    pub fn set_app_icon(&mut self, slot: usize, path: String)
        ensures
            slot < old(self)@.filtered_entries.len() ==> final(self)@ == (CastItView {
                filtered_entries: old(self)@.filtered_entries.update(
                    slot as int,
                    (
                        crate::models::AppEntryView {
                            icon_path: Some(path@),
                            ..old(self)@.filtered_entries[slot as int].0
                        },
                        old(self)@.filtered_entries[slot as int].1,
                    ),
                ),
                ..old(self)@
            }),
            slot >= old(self)@.filtered_entries.len() ==> final(self)@ == old(self)@,
    {
        if slot < self.filtered_entries.len() {
            let (e, sc) = (self.filtered_entries[slot].0.duplicate(), self.filtered_entries[slot].1);
            let mut e2 = e;
            e2.icon_path = Some(path);
            self.filtered_entries.set(slot, (e2, sc));
            proof {
                assert(app_hits(self.filtered_entries@) =~= old(self)@.filtered_entries.update(
                    slot as int,
                    (
                        crate::models::AppEntryView {
                            icon_path: Some(path@),
                            ..old(self)@.filtered_entries[slot as int].0
                        },
                        old(self)@.filtered_entries[slot as int].1,
                    ),
                ));
            }
        }
    }

    /// Sets the icon path found for the file browser result at `slot`.
    pub fn set_file_icon(&mut self, slot: usize, path: String)
        ensures
            slot < old(self)@.filtered_files.len() ==> final(self)@ == (CastItView {
                filtered_files: old(self)@.filtered_files.update(
                    slot as int,
                    (
                        crate::models::FileEntryView {
                            icon_path: Some(path@),
                            ..old(self)@.filtered_files[slot as int].0
                        },
                        old(self)@.filtered_files[slot as int].1,
                    ),
                ),
                ..old(self)@
            }),
            slot >= old(self)@.filtered_files.len() ==> final(self)@ == old(self)@,
    {
        if slot < self.filtered_files.len() {
            let (e, sc) = (self.filtered_files[slot].0.duplicate(), self.filtered_files[slot].1);
            let mut e2 = e;
            e2.icon_path = Some(path);
            self.filtered_files.set(slot, (e2, sc));
            proof {
                assert(file_hits(self.filtered_files@) =~= old(self)@.filtered_files.update(
                    slot as int,
                    (
                        crate::models::FileEntryView {
                            icon_path: Some(path@),
                            ..old(self)@.filtered_files[slot as int].0
                        },
                        old(self)@.filtered_files[slot as int].1,
                    ),
                ));
            }
        }
    }

    /// Launches the selected application: counts the launch and returns the effects that
    /// save it, start the program and quit.
    pub fn launch_selected(&mut self) -> (r: Vec<Effect>)
        ensures
            (final(self)@, effect_views(r@)) == launched(old(self)@),
    {
        let mut out: Vec<Effect> = Vec::new();
        if self.selected_index < self.filtered_entries.len() {
            let command = self.filtered_entries[self.selected_index].0.command.clone();
            let argv = command_words(command.as_str());
            record_launch(&mut self.config.history, command.as_str());
            out.push(Effect::SaveConfig);
            if argv.len() > 0 {
                out.push(Effect::Launch { argv });
            }
            out.push(Effect::Exit);
        }
        proof {
            assert(effect_views(out@) =~= launched(old(self)@).1);
        }
        out
    }

    /// Adds the selected launcher result to the favourites, or removes it, and asks for the
    /// change to be saved.
    fn on_toggle_favorite(&mut self) -> (r: Vec<Effect>)
        ensures
            (final(self)@, effect_views(r@)) == favorite_toggled(old(self)@),
    {
        if self.mode == Mode::Launcher && self.selected_index < self.filtered_entries.len() {
            let command = self.filtered_entries[self.selected_index].0.command.clone();
            toggle_favorite(&mut self.config.favorites, command.as_str());
            Self::single(Effect::SaveConfig)
        } else {
            Self::none()
        }
    }

    fn query_changed(&mut self, v: String, env: &Environment) -> (r: Vec<Effect>)
        requires
            names_fit(old(self)@),
        ensures
            (final(self)@, effect_views(r@)) == query_changed(old(self)@, v@, env@),
    {
        let q = chars_of(v.as_str());
        self.query = v;
        self.selected_index = 0;
        self.preview_active = false;
        let empty: Vec<Effect> = Vec::new();
        proof {
            assert(effect_views(empty@) =~= Seq::empty());
        }
        proof {
            reveal_strlit("f ");
        }
        let global = starts_with(&q, &chars_of("f "));
        if starts_with(&q, &chars_of("??")) {
            self.mode = Mode::Help;
            empty
        } else if starts_with(&q, &chars_of("..")) {
            self.mode = Mode::Settings;
            empty
        } else if first_is(&q, '>') {
            self.mode = Mode::CommandRunner;
            if chars_eq(&trim_chars(&q), &chars_of(">")) {
                self.runner_state = RunnerState::Idle;
            }
            empty
        } else if first_is(&q, '?') {
            self.mode = Mode::WebSearch;
            empty
        } else if global {
            self.mode = Mode::FileBrowser;
            self.filtered_files = Vec::new();
            proof {
                assert(file_hits(self.filtered_files@) =~= Seq::empty());
            }
            let n = q.len();
            let p = trim_chars(&slice_chars(&q, 2, n));
            proof {
                assert(q@.subrange(2, n as int) =~= q@.skip(2));
            }
            let mut out: Vec<Effect> = Vec::new();
            if p.len() > 0 {
                out.push(Effect::SearchFiles { pattern: string_of(&p), root: home_or(env, "/home/alvaro") });
            }
            proof {
                assert(effect_views(out@) =~= query_changed(old(self)@, v@, env@).1);
            }
            out
        } else if first_is(&q, '/') || first_is(&q, '~') {
            self.mode = Mode::FileBrowser;
            assert(self@.all_entries == old(self)@.all_entries);
            self.update_filtered_files(env)
        } else if is_arithmetic(&q) {
            self.mode = Mode::Calculator;
            empty
        } else {
            self.mode = Mode::Launcher;
            self.runner_state = RunnerState::Idle;
            assert(self@.all_entries == old(self)@.all_entries);
            self.update_filtered_entries()
        }
    }

    fn submit(&mut self) -> (r: Vec<Effect>)
        ensures
            (final(self)@, effect_views(r@)) == submitted(old(self)@),
    {
        let mut out: Vec<Effect> = Vec::new();
        match self.mode {
            Mode::Launcher => {
                out = self.launch_selected();
            },
            Mode::CommandRunner => {
                let q = chars_of(self.query.as_str());
                let cmd = trim_chars(&without_lead_chars(&q, '>'));
                if cmd.len() > 0 {
                    let c = string_of(&cmd);
                    self.runner_state = RunnerState::Running { command: c.clone() };
                    self.query = "> ".to_owned();
                    out.push(Effect::RunInBackground { command: c });
                }
            },
            Mode::FileBrowser => {
                if self.selected_index < self.filtered_files.len() {
                    out.push(Effect::OpenPath { path: self.filtered_files[self.selected_index].0.path.clone() });
                    out.push(Effect::Exit);
                }
            },
            Mode::WebSearch => {
                let q = chars_of(self.query.as_str());
                let wq = trim_chars(&without_lead_chars(&q, '?'));
                if wq.len() > 0 {
                    let url = web_search_url(string_of(&wq).as_str());
                    out.push(Effect::OpenUrl { url, browser: crate::models::clone_opt(&self.config.browser) });
                    out.push(Effect::Exit);
                }
            },
            Mode::Calculator => {
                let q = chars_of(self.query.as_str());
                out.push(Effect::CopyCalculation { expression: string_of(&trim_chars(&q)) });
                out.push(Effect::Exit);
            },
            _ => {},
        }
        proof {
            assert(effect_views(out@) =~= submitted(old(self)@).1);
        }
        out
    }

    fn submit_in_terminal(&self, env: &Environment) -> (r: Vec<Effect>)
        ensures
            effect_views(r@) == submitted_in_terminal(self@, env@),
    {
        let mut out: Vec<Effect> = Vec::new();
        let q = chars_of(self.query.as_str());
        let cmd = trim_chars(&without_lead_chars(&q, '>'));
        if self.mode == Mode::CommandRunner && cmd.len() > 0 {
            let c = string_of(&cmd);
            let preferred: Option<&str> = match &self.config.terminal {
                Some(t) => Some(t.as_str()),
                None => None,
            };
            match terminal_launch(c.as_str(), preferred, &env.terminals) {
                Ok(launch) => {
                    out.push(Effect::RunInTerminal { launch });
                },
                Err(_) => {},
            }
            out.push(Effect::Exit);
        }
        proof {
            assert(effect_views(out@) =~= submitted_in_terminal(self@, env@));
        }
        out
    }

    fn move_down(&mut self, n: usize) -> (r: Vec<Effect>)
        ensures
            (final(self)@, effect_views(r@)) == list_down(old(self)@, n as int),
    {
        let mut out: Vec<Effect> = Vec::new();
        if n > 0 {
            let i = if self.selected_index < n - 1 {
                self.selected_index + 1
            } else {
                n - 1
            };
            self.selected_index = i;
            if n > 1 {
                out.push(Effect::SnapList { index: i, total: n });
            }
        }
        proof {
            assert(effect_views(out@) =~= list_down(old(self)@, n as int).1);
        }
        out
    }

    fn move_up(&mut self, n: usize) -> (r: Vec<Effect>)
        ensures
            (final(self)@, effect_views(r@)) == list_up(old(self)@, n as int),
    {
        let mut out: Vec<Effect> = Vec::new();
        let i = if self.selected_index > 0 {
            self.selected_index - 1
        } else {
            0
        };
        self.selected_index = i;
        if n > 1 {
            out.push(Effect::SnapList { index: i, total: n });
        }
        proof {
            assert(effect_views(out@) =~= list_up(old(self)@, n as int).1);
        }
        out
    }

    fn change_setting(&mut self, env: &Environment, up: bool) -> (r: Vec<Effect>)
        ensures
            (final(self)@, effect_views(r@)) == setting_changed(old(self)@, env@, up),
    {
        let dir: i32 = if up {
            1
        } else {
            -1
        };
        let mut out: Vec<Effect> = Vec::new();
        let sel = self.selected_setting;
        if sel == 0 {
            cycle_theme(&mut self.config, dir);
        } else if sel == 1 {
            cycle_terminal(&mut self.config, dir, &env.terminals);
        } else if sel == 2 {
            out.push(Effect::AdjustOpacity { up });
        } else if sel == 3 {
            adjust_width(&mut self.config, up);
        } else if sel == 4 {
            adjust_height(&mut self.config, up);
        } else if sel == 5 {
            toggle_language(&mut self.config);
        } else if sel == 6 {
            cycle_browser(&mut self.config, dir, &env.browsers);
        }
        if sel <= 6 && sel != 2 {
            out.push(Effect::SaveConfig);
        }
        proof {
            assert(effect_views(out@) =~= setting_changed(old(self)@, env@, up).1);
        }
        out
    }

    fn browse(&mut self, q: String, env: &Environment) -> (r: Vec<Effect>)
        requires
            names_fit(old(self)@),
        ensures
            (final(self)@, effect_views(r@)) == browse_to(old(self)@, q@, env@),
    {
        self.query = q;
        self.selected_index = 0;
        assert(self@.all_entries == old(self)@.all_entries);
        let mut out = self.update_filtered_files(env);
        let ghost before = effect_views(out@);
        out.push(Effect::MoveCursorToEnd);
        proof {
            assert(effect_views(out@) =~= before.push(EffectView::MoveCursorToEnd));
        }
        out
    }

    fn single(e: Effect) -> (r: Vec<Effect>)
        ensures
            effect_views(r@) == seq![e@],
    {
        let mut out: Vec<Effect> = Vec::new();
        out.push(e);
        proof {
            assert(effect_views(out@) =~= seq![e@]);
        }
        out
    }

    fn none() -> (r: Vec<Effect>)
        ensures
            effect_views(r@) == Seq::<EffectView>::empty(),
    {
        let out: Vec<Effect> = Vec::new();
        proof {
            assert(effect_views(out@) =~= Seq::empty());
        }
        out
    }

    fn on_clear(&mut self, env: &Environment) -> (r: Vec<Effect>)
        requires
            names_fit(old(self)@),
        ensures
            (final(self)@, effect_views(r@)) == step(old(self)@, MessageView::ClearQuery, env@),
    {
        self.query = String::new();
        self.selected_index = 0;
        self.mode = Mode::Launcher;
        self.runner_state = RunnerState::Idle;
        self.preview_active = false;
        self.filtered_entries = Vec::new();
        self.filtered_files = Vec::new();
        proof {
            assert(app_hits(self.filtered_entries@) =~= Seq::empty());
            assert(file_hits(self.filtered_files@) =~= Seq::empty());
            assert(self@.all_entries == old(self)@.all_entries);
        }
        self.update_filtered_entries()
    }

    fn on_finished(&mut self, command: String, result: Result<String, String>, env: &Environment) -> (r: Vec<Effect>)
        ensures
            (final(self)@, effect_views(r@)) == step(
                old(self)@,
                MessageView::CommandFinished {
                    command: command@,
                    result: match result {
                        Ok(o) => Ok(o@),
                        Err(e) => Err(e@),
                    },
                },
                env@,
            ),
    {
        match result {
            Ok(output) => {
                self.runner_state = RunnerState::Finished { command, output };
            },
            Err(error) => {
                self.runner_state = RunnerState::Failed { command, error };
            },
        }
        Self::none()
    }

    fn on_down(&mut self, env: &Environment) -> (r: Vec<Effect>)
        ensures
            (final(self)@, effect_views(r@)) == step(old(self)@, MessageView::ArrowDown, env@),
    {
        match self.mode {
            Mode::Launcher => {
                let n = self.filtered_entries.len();
                self.move_down(n)
            },
            Mode::FileBrowser => {
                let n = self.filtered_files.len();
                self.move_down(n)
            },
            Mode::Help => Self::single(Effect::ScrollHelp { down: true }),
            Mode::Settings => {
                if self.selected_setting < 6 {
                    self.selected_setting = self.selected_setting + 1;
                } else {
                    self.selected_setting = 6;
                }
                Self::none()
            },
            _ => Self::none(),
        }
    }

    fn on_up(&mut self, env: &Environment) -> (r: Vec<Effect>)
        ensures
            (final(self)@, effect_views(r@)) == step(old(self)@, MessageView::ArrowUp, env@),
    {
        match self.mode {
            Mode::Launcher => {
                let n = self.filtered_entries.len();
                self.move_up(n)
            },
            Mode::FileBrowser => {
                let n = self.filtered_files.len();
                self.move_up(n)
            },
            Mode::Settings => {
                if self.selected_setting > 0 {
                    self.selected_setting = self.selected_setting - 1;
                }
                Self::none()
            },
            Mode::Help => Self::single(Effect::ScrollHelp { down: false }),
            _ => Self::none(),
        }
    }

    fn on_left(&mut self, env: &Environment) -> (r: Vec<Effect>)
        requires
            names_fit(old(self)@),
        ensures
            (final(self)@, effect_views(r@)) == step(old(self)@, MessageView::ArrowLeft, env@),
    {
        if self.mode == Mode::Settings {
            self.change_setting(env, false)
        } else if self.mode == Mode::FileBrowser {
            let home = home_or(env, "");
            proof {
                reveal_strlit("");
                assert(home@ == display_home(env@));
            }
            match go_up_query(self.query.as_str(), home.as_str()) {
                Some(q) => self.browse(q, env),
                None => Self::none(),
            }
        } else {
            Self::none()
        }
    }

    fn on_right(&mut self, env: &Environment) -> (r: Vec<Effect>)
        requires
            names_fit(old(self)@),
        ensures
            (final(self)@, effect_views(r@)) == step(old(self)@, MessageView::ArrowRight, env@),
    {
        if self.mode == Mode::Settings {
            self.change_setting(env, true)
        } else if self.mode == Mode::FileBrowser && self.selected_index < self.filtered_files.len()
            && self.filtered_files[self.selected_index].0.is_dir {
            let home = home_or(env, "");
            proof {
                reveal_strlit("");
                assert(home@ == display_home(env@));
            }
            let q = go_into_query(self.filtered_files[self.selected_index].0.path.as_str(), home.as_str());
            self.browse(q, env)
        } else {
            Self::none()
        }
    }

    fn on_preview(&mut self, message: Message, env: &Environment) -> (r: Vec<Effect>)
        requires
            message matches Message::TogglePreview || message matches Message::ScrollPreviewUp
                || message matches Message::ScrollPreviewDown,
        ensures
            (final(self)@, effect_views(r@)) == step(old(self)@, message@, env@),
    {
        match message {
            Message::TogglePreview => {
                if self.mode == Mode::FileBrowser && self.filtered_files.len() > 0 {
                    self.preview_active = !self.preview_active;
                }
                Self::none()
            },
            Message::ScrollPreviewUp => {
                if self.mode == Mode::FileBrowser && self.preview_active {
                    Self::single(Effect::ScrollPreview { down: false })
                } else {
                    Self::none()
                }
            },
            _ => {
                if self.mode == Mode::FileBrowser && self.preview_active {
                    Self::single(Effect::ScrollPreview { down: true })
                } else {
                    Self::none()
                }
            },
        }
    }

    fn on_select(&mut self, index: usize, env: &Environment) -> (r: Vec<Effect>)
        ensures
            (final(self)@, effect_views(r@)) == step(old(self)@, MessageView::SelectEntry(index), env@),
    {
        if self.mode == Mode::Launcher {
            self.selected_index = index;
            self.launch_selected()
        } else {
            Self::none()
        }
    }

    fn on_files_found(&mut self, pattern: String, entries: Vec<FileEntry>) -> (r: Vec<Effect>)
        requires
            forall|i: int| 0 <= i < entries@.len() ==> (#[trigger] entries@[i]).name@.len() <= u32::MAX,
        ensures
            (final(self)@, effect_views(r@)) == files_found(
                old(self)@,
                pattern@,
                entries@.map_values(|e: FileEntry| e@),
            ),
    {
        let q = chars_of(self.query.as_str());
        proof {
            reveal_strlit("f ");
        }
        let wanted = if self.mode == Mode::FileBrowser && starts_with(&q, &chars_of("f ")) {
            let n = q.len();
            let p = trim_chars(&slice_chars(&q, 2, n));
            proof {
                assert(q@.subrange(2, n as int) =~= q@.skip(2));
            }
            chars_eq(&p, &chars_of(pattern.as_str()))
        } else {
            false
        };
        if wanted {
            let hits = file_matches(pattern.as_str(), &entries);
            let requests = file_requests(&hits);
            self.filtered_files = hits;
            let mut out: Vec<Effect> = Vec::new();
            out.push(Effect::ResolveFileIcons { requests });
            proof {
                assert(effect_views(out@) =~= files_found(old(self)@, pattern@, entries@.map_values(|e: FileEntry| e@)).1);
            }
            out
        } else {
            Self::none()
        }
    }

    /// Reacts to one event: updates the state and returns the outside work to do, in order.
    pub fn update(&mut self, message: Message, env: &Environment) -> (r: Vec<Effect>)
        requires
            names_fit(old(self)@),
            message_fits(message@),
        ensures
            (final(self)@, effect_views(r@)) == step(old(self)@, message@, env@),
    {
        match message {
            Message::ClearQuery => self.on_clear(env),
            Message::QueryChanged(v) => self.query_changed(v, env),
            Message::Submit => self.submit(),
            Message::SubmitInTerminal => self.submit_in_terminal(env),
            Message::CommandFinished { command, result } => self.on_finished(command, result, env),
            Message::Escape => Self::single(Effect::Exit),
            Message::ArrowDown => self.on_down(env),
            Message::ArrowUp => self.on_up(env),
            Message::ArrowLeft => self.on_left(env),
            Message::ArrowRight => self.on_right(env),
            Message::TogglePreview => self.on_preview(Message::TogglePreview, env),
            Message::ScrollPreviewUp => self.on_preview(Message::ScrollPreviewUp, env),
            Message::ScrollPreviewDown => self.on_preview(Message::ScrollPreviewDown, env),
            Message::SelectEntry(index) => self.on_select(index, env),
            Message::WindowFocused => Self::single(Effect::FocusInput),
            Message::ToggleFavorite => self.on_toggle_favorite(),
            Message::FilesFound { pattern, entries } => {
                proof {
                    assert forall|i: int| 0 <= i < entries@.len() implies (#[trigger] entries@[i]).name@.len() <= u32::MAX by {
                        assert(entries@.map_values(|e: FileEntry| e@)[i] == entries@[i]@);
                    }
                }
                self.on_files_found(pattern, entries)
            },
        }
    }
}

} // verus!
