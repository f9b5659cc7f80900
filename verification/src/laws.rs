use vstd::prelude::*;

use crate::config::{
    choice_ring, lemma_position_of, lemma_ring_step, next_choice, next_theme, position_of, ring_step,
    theme_names,
};
use crate::config::{size_down, size_up, toggled_language, ConfigView};
use crate::files::{is_path_query, path_query};
use crate::runner::{
    available_list, browser_names, first_real, no_terminal_message, terminal_args, terminal_names,
    terminal_plan, terminal_shell_line,
};
use crate::desktop::{scan_key, scan_line, split_once_eq, DesktopScan};
use crate::files::{listing_keys, sorted_listing};
use crate::favorites::{favorite_part};
use crate::search::with_direct_icon;
use crate::favorites::{dashboard, launch_count, recent_part, recent_scores, RECENT_LIMIT};
use crate::state::app_icon_requests;
use crate::keys::{key_action, Key};
use crate::state::{
    names_fit, refresh_files, step, CastItView, EffectView, EnvironmentView, MessageView, Mode,
    RunnerView,
};
use crate::search::{best_matches, key_hit, match_key, match_keys, name_scores, RESULT_LIMIT};
use crate::sort::{key_le, key_order, lemma_key_le_total_ordering, sorted_keys, KeyView};
use crate::desktop::{app_catalog, by_lowercase_name, first_of_each_name, name_order_keys, name_seen_before};
use crate::models::{AppEntryView, FileEntryView};
use crate::search::{file_results, file_shown, visible_files};
use crate::sort::lex_le;
use crate::desktop::{exec_command, remove_field_codes};
use crate::text::{has_char, is_ws, lowercase_of, trim, trim_end, trim_start, Chars};
use vstd::relations::sorted_by;

verus! {

/// No theme name occurs twice in the theme list.
pub proof fn lemma_theme_names_distinct()
    ensures
        forall|i: int, j: int|
            0 <= i < j < theme_names().len() ==> #[trigger] theme_names()[i] != #[trigger] theme_names()[j],
{
    reveal_strlit("TokyoNight");
    reveal_strlit("TokyoNightStorm");
    reveal_strlit("TokyoNightLight");
    reveal_strlit("Dark");
    reveal_strlit("Light");
    reveal_strlit("Dracula");
    reveal_strlit("Nord");
    reveal_strlit("SolarizedLight");
    reveal_strlit("SolarizedDark");
    reveal_strlit("GruvboxLight");
    reveal_strlit("GruvboxDark");
    reveal_strlit("CatppuccinLatte");
    reveal_strlit("CatppuccinFrappe");
    reveal_strlit("CatppuccinMacchiato");
    reveal_strlit("CatppuccinMocha");
    reveal_strlit("KanagawaWave");
    reveal_strlit("KanagawaDragon");
    reveal_strlit("KanagawaLotus");
    reveal_strlit("Moonfly");
    reveal_strlit("Nightfly");
    reveal_strlit("Oxocarbon");
    reveal_strlit("Ferra");
    let t = theme_names();
    assert forall|i: int, j: int| 0 <= i < j < t.len() implies #[trigger] t[i] != #[trigger] t[j] by {
        if t[i] == t[j] {
            assert(t[i].len() == t[j].len());
            assert(t[i][0] == t[j][0]);
            assert(t[i][t[i].len() - 1] == t[j][t[j].len() - 1]);
            assert(t[i][1] == t[j][1]);
            assert(t[i][2] == t[j][2]);
            assert(t[i][5] == t[j][5]);
        }
    }
}

/// In a list without repeats, the position of an element is its index.
pub proof fn lemma_position_in_distinct(list: Seq<Chars>, k: int)
    requires
        0 <= k < list.len(),
        forall|i: int, j: int| 0 <= i < j < list.len() ==> #[trigger] list[i] != #[trigger] list[j],
    ensures
        position_of(list, list[k]) == Some(k),
{
    lemma_position_of(list, list[k]);
    assert(list.contains(list[k]));
    match position_of(list, list[k]) {
        Some(p) => {
            if p < k {
                assert(list[p] != list[k]);
            } else if p > k {
                assert(list[k] != list[k]);
            }
        },
        None => {},
    }
}

/// Two steps in opposite directions round a ring of `n` places return to the start.
pub proof fn lemma_ring_back_and_forth(k: int, n: int, d: i32)
    requires
        0 <= k < n,
        d == 1 || d == -1,
    ensures
        0 <= ring_step(k, n, d) < n,
        ring_step(ring_step(k, n, d), n, if d == 1 { -1i32 } else { 1i32 }) == k,
{
    lemma_ring_step(k, n, d);
    let m = ring_step(k, n, d);
    lemma_ring_step(m, n, if d == 1 { -1i32 } else { 1i32 });
}

/// Law: the theme setting moved one step and back is the theme it was, for every
/// theme of the list, in either order of the two steps.
pub proof fn law_theme_round_trip(t: Chars, d: i32)
    requires
        theme_names().contains(t),
        d == 1 || d == -1,
    ensures
        next_theme(Some(next_theme(Some(t), d)), if d == 1 { -1i32 } else { 1i32 }) == t,
{
    lemma_theme_names_distinct();
    let names = theme_names();
    let k = choose|k: int| 0 <= k < names.len() && names[k] == t;
    lemma_position_in_distinct(names, k);
    lemma_ring_back_and_forth(k, 22, d);
    let m = ring_step(k, 22, d);
    lemma_position_in_distinct(names, m);
}

/// The theme after `n` forward steps from `t`.
pub open spec fn theme_after(t: Chars, n: nat) -> Chars
    decreases n,
{
    if n == 0 {
        t
    } else {
        next_theme(Some(theme_after(t, (n - 1) as nat)), 1)
    }
}

proof fn lemma_theme_after(k: int, j: nat)
    requires
        0 <= k < 22,
    ensures
        theme_after(theme_names()[k], j) == theme_names()[(k + j) % 22],
    decreases j,
{
    lemma_theme_names_distinct();
    if j == 0 {
        vstd::arithmetic::div_mod::lemma_small_mod(k as nat, 22);
    } else {
        lemma_theme_after(k, (j - 1) as nat);
        let p = (k + j - 1) % 22;
        assert(0 <= p < 22);
        lemma_position_in_distinct(theme_names(), p);
        lemma_ring_step(p, 22, 1);
        vstd::arithmetic::div_mod::lemma_add_mod_noop(k + j - 1, 1, 22);
        vstd::arithmetic::div_mod::lemma_small_mod(1, 22);
        if p + 1 == 22 {
            vstd::arithmetic::div_mod::lemma_mod_self_0(22);
        } else {
            vstd::arithmetic::div_mod::lemma_small_mod((p + 1) as nat, 22);
        }
    }
}

/// Law: the theme setting goes round the whole list: 22 forward steps from any
/// theme of the list return to it.
pub proof fn law_theme_full_cycle(t: Chars)
    requires
        theme_names().contains(t),
    ensures
        theme_after(t, 22) == t,
{
    let names = theme_names();
    let k = choose|k: int| 0 <= k < names.len() && names[k] == t;
    lemma_theme_after(k, 22);
    vstd::arithmetic::div_mod::lemma_add_mod_noop(k, 22, 22);
    vstd::arithmetic::div_mod::lemma_mod_self_0(22);
    vstd::arithmetic::div_mod::lemma_small_mod(k as nat, 22);
}

/// Law: a preferred terminal or browser moved one step and back is the choice it
/// was, when the offered list has no repeats and holds `Auto` and the choice (an unset
/// choice counts as `Auto`).
pub proof fn law_choice_round_trip(available: Seq<Chars>, current: Option<Chars>, d: i32)
    requires
        forall|i: int, j: int| 0 <= i < j < available.len() ==> #[trigger] available[i] != #[trigger] available[j],
        available.contains("Auto"@),
        current matches Some(c) ==> available.contains(c) && c != "Auto"@,
        d == 1 || d == -1,
    ensures
        next_choice(available, next_choice(available, current, d), if d == 1 { -1i32 } else { 1i32 }) == current,
{
    let cur = match current {
        Some(c) => c,
        None => "Auto"@,
    };
    assert(choice_ring(available, cur) == available);
    let k = choose|k: int| 0 <= k < available.len() && available[k] == cur;
    lemma_position_in_distinct(available, k);
    lemma_ring_back_and_forth(k, available.len() as int, d);
    let m = ring_step(k, available.len() as int, d);
    let next = available[m];
    lemma_position_in_distinct(available, m);
    if next == "Auto"@ {
        let a = choose|a: int| 0 <= a < available.len() && available[a] == "Auto"@;
        if a != m {
            if a < m {
                assert(available[a] != available[m]);
            } else {
                assert(available[m] != available[a]);
            }
        }
        assert(choice_ring(available, "Auto"@) == available);
    } else {
        assert(choice_ring(available, next) == available);
    }
}

/// No two looked-for programs share a name, and none is called `Auto`.
proof fn lemma_program_names(names: Seq<Chars>)
    requires
        names == terminal_names() || names == browser_names(),
    ensures
        forall|i: int, j: int| 0 <= i < j < names.len() ==> #[trigger] names[i] != #[trigger] names[j],
        forall|i: int| 0 <= i < names.len() ==> #[trigger] names[i] != "Auto"@,
{
    reveal_strlit("Auto");
    reveal_strlit("ghostty");
    reveal_strlit("kitty");
    reveal_strlit("alacritty");
    reveal_strlit("wezterm");
    reveal_strlit("gnome-terminal");
    reveal_strlit("konsole");
    reveal_strlit("xfce4-terminal");
    reveal_strlit("xterm");
    reveal_strlit("zen-browser");
    reveal_strlit("zen");
    reveal_strlit("firefox");
    reveal_strlit("google-chrome");
    reveal_strlit("brave-browser");
    reveal_strlit("brave");
    reveal_strlit("chromium");
    reveal_strlit("epiphany");
    reveal_strlit("opera");
    reveal_strlit("vivaldi");
    reveal_strlit("librewolf");
    reveal_strlit("waterfox");
    assert forall|i: int, j: int| 0 <= i < j < names.len() implies #[trigger] names[i] != #[trigger] names[j] by {
        if names[i] == names[j] {
            assert(names[i].len() == names[j].len());
            assert(names[i][0] == names[j][0]);
        }
    }
    assert forall|i: int| 0 <= i < names.len() implies #[trigger] names[i] != "Auto"@ by {
        if names[i] == "Auto"@ {
            assert(names[i].len() == 4);
        }
    }
}

/// The list a scan offers holds `Auto` first, then found candidates, so it has no
/// repeats when the candidates have none and none is called `Auto`.
proof fn lemma_available_list(cands: Seq<Chars>, found: Seq<bool>)
    requires
        found.len() == cands.len(),
        forall|i: int, j: int| 0 <= i < j < cands.len() ==> #[trigger] cands[i] != #[trigger] cands[j],
        forall|i: int| 0 <= i < cands.len() ==> #[trigger] cands[i] != "Auto"@,
    ensures
        available_list(cands, found).len() >= 1,
        available_list(cands, found)[0] == "Auto"@,
        forall|k: int|
            1 <= k < available_list(cands, found).len() ==> cands.contains(
                #[trigger] available_list(cands, found)[k],
            ),
        forall|a: int, b: int|
            0 <= a < b < available_list(cands, found).len() ==> #[trigger] available_list(cands, found)[a]
                != #[trigger] available_list(cands, found)[b],
    decreases cands.len(),
{
    if cands.len() > 0 {
        let dc = cands.drop_last();
        let df = found.drop_last();
        assert forall|i: int, j: int| 0 <= i < j < dc.len() implies #[trigger] dc[i] != #[trigger] dc[j] by {
            assert(dc[i] == cands[i] && dc[j] == cands[j]);
        }
        assert forall|i: int| 0 <= i < dc.len() implies #[trigger] dc[i] != "Auto"@ by {
            assert(dc[i] == cands[i]);
        }
        lemma_available_list(dc, df);
        let rest = available_list(dc, df);
        let all = available_list(cands, found);
        let n = cands.len() - 1;
        assert forall|k: int| 1 <= k < all.len() implies cands.contains(#[trigger] all[k]) by {
            if k < rest.len() {
                assert(dc.contains(rest[k]));
                let i = choose|i: int| 0 <= i < dc.len() && dc[i] == rest[k];
                assert(all[k] == rest[k]);
                assert(cands[i] == dc[i]);
            } else {
                assert(all[k] == cands[n]);
            }
        }
        assert forall|a: int, b: int| 0 <= a < b < all.len() implies #[trigger] all[a] != #[trigger] all[b] by {
            if b >= rest.len() {
                assert(all[b] == cands[n]);
                assert(all[a] == rest[a]);
                if a == 0 {
                    assert(cands[n] != "Auto"@);
                } else {
                    assert(dc.contains(rest[a]));
                    let i = choose|i: int| 0 <= i < dc.len() && dc[i] == rest[a];
                    assert(cands[i] == dc[i]);
                    assert(cands[i] != cands[n]);
                }
            } else {
                assert(all[a] == rest[a] && all[b] == rest[b]);
            }
        }
    }
}

/// Law: whatever a scan of PATH found, moving the preferred terminal (or browser) one
/// step and back gives the choice it was, for an unset choice or any found program.
pub proof fn law_scan_choice_round_trip(browsers: bool, found: Seq<bool>, current: Option<Chars>, d: i32)
    requires
        found.len() == (if browsers { browser_names() } else { terminal_names() }).len(),
        current matches Some(c) ==> available_list(
            if browsers { browser_names() } else { terminal_names() },
            found,
        ).contains(c) && c != "Auto"@,
        d == 1 || d == -1,
    ensures
        ({
            let a = available_list(if browsers { browser_names() } else { terminal_names() }, found);
            next_choice(a, next_choice(a, current, d), if d == 1 { -1i32 } else { 1i32 }) == current
        }),
{
    let names = if browsers { browser_names() } else { terminal_names() };
    lemma_program_names(names);
    lemma_available_list(names, found);
    let a = available_list(names, found);
    assert(a[0] == "Auto"@);
    assert(a.contains("Auto"@));
    law_choice_round_trip(a, current, d);
}

// ---------------------------------------------------------------------------
// Laws of the launcher state
// ---------------------------------------------------------------------------

/// Law: no event changes the application list or the listing of the browsed
/// directory; only `directory_listed` replaces the listing.
#[verifier::spinoff_prover]
#[verifier::rlimit(40)]
pub proof fn law_step_keeps_lists(s: CastItView, m: MessageView, env: EnvironmentView)
    ensures
        step(s, m, env).0.all_entries == s.all_entries,
        step(s, m, env).0.directory_entries == s.directory_entries,
        step(s, m, env).0.current_parent_dir == s.current_parent_dir,
{
    match m {
        MessageView::QueryChanged(v) => {
            let r = crate::state::query_changed(s, v, env);
            assert(r.0.all_entries == s.all_entries);
        },
        MessageView::ArrowLeft => {},
        MessageView::ArrowRight => {},
        MessageView::Submit => {},
        _ => {},
    }
}

/// Law: every event keeps the names within the matcher's limit, so events can follow
/// one another.
#[verifier::spinoff_prover]
#[verifier::rlimit(40)]
pub proof fn law_step_keeps_names_fit(s: CastItView, m: MessageView, env: EnvironmentView)
    requires
        names_fit(s),
    ensures
        names_fit(step(s, m, env).0),
{
    law_step_keeps_lists(s, m, env);
}

/// Law: clearing the query (Shift+Delete) returns to the launcher with an empty query,
/// whatever the state, showing the dashboard of favourite and most launched applications.
pub proof fn law_clear_query_resets(s: CastItView, env: EnvironmentView)
    ensures
        ({
            let (t, fx) = step(s, MessageView::ClearQuery, env);
            &&& t.query.len() == 0
            &&& t.mode == Mode::Launcher
            &&& t.runner_state == RunnerView::Idle
            &&& t.filtered_entries == dashboard(s.all_entries, s.config.favorites, s.config.history)
            &&& t.filtered_files.len() == 0
            &&& t.selected_index == 0
            &&& !t.preview_active
            &&& t.config == s.config
            &&& fx == seq![EffectView::ResolveAppIcons { requests: app_icon_requests(t.filtered_entries) }]
        }),
{
}

/// Law: Escape quits, in every mode, and changes nothing.
pub proof fn law_escape_exits(s: CastItView, env: EnvironmentView)
    ensures
        step(s, MessageView::Escape, env) == (s, seq![EffectView::Exit]),
{
}

/// Quitting, if asked for, is the last of the effects.
pub open spec fn exit_only_last(fx: Seq<EffectView>) -> bool {
    forall|i: int| 0 <= i < fx.len() && #[trigger] fx[i] == EffectView::Exit ==> i == fx.len() - 1
}

proof fn lemma_refresh_files_no_exit(s: CastItView, env: EnvironmentView)
    ensures
        refresh_files(s, env).1.len() <= 1,
        forall|i: int| 0 <= i < refresh_files(s, env).1.len() ==> #[trigger] refresh_files(s, env).1[i] != EffectView::Exit,
{
}

proof fn lemma_query_changed_exit(s: CastItView, v: Chars, env: EnvironmentView)
    ensures
        exit_only_last(crate::state::query_changed(s, v, env).1),
{
    let s1 = CastItView { query: v, selected_index: 0, preview_active: false, ..s };
    lemma_refresh_files_no_exit(CastItView { mode: Mode::FileBrowser, ..s1 }, env);
}

proof fn lemma_browse_exit(s: CastItView, q: Chars, env: EnvironmentView)
    ensures
        exit_only_last(crate::state::browse_to(s, q, env).1),
{
    lemma_refresh_files_no_exit(CastItView { query: q, selected_index: 0, ..s }, env);
    let r = refresh_files(CastItView { query: q, selected_index: 0, ..s }, env);
    let fx = r.1.push(EffectView::MoveCursorToEnd);
    assert forall|i: int| 0 <= i < fx.len() && #[trigger] fx[i] == EffectView::Exit implies i == fx.len() - 1 by {
        if i < r.1.len() {
            assert(fx[i] == r.1[i]);
        }
    }
}

/// Law: when an event asks to quit, quitting is the last thing it asks for.
#[verifier::rlimit(40)]
#[verifier::spinoff_prover]
#[verifier::rlimit(40)]
pub proof fn law_exit_comes_last(s: CastItView, m: MessageView, env: EnvironmentView)
    ensures
        exit_only_last(step(s, m, env).1),
{
    match m {
        MessageView::QueryChanged(v) => {
            lemma_query_changed_exit(s, v, env);
        },
        MessageView::ArrowLeft => {
            match crate::files::parent_query(s.query, crate::state::display_home(env)) {
                Some(q) => lemma_browse_exit(s, q, env),
                None => {},
            }
        },
        MessageView::ArrowRight => {
            if s.selected_index < s.filtered_files.len() {
                lemma_browse_exit(
                    s,
                    crate::files::enter_query(s.filtered_files[s.selected_index as int].0.path, crate::state::display_home(env)),
                    env,
                );
            }
        },
        _ => {},
    }
}

/// Law: the settings change only in settings mode, by Left or Right; the favourites
/// change only by Ctrl+D in the launcher; the launch counts change only by launching an
/// application from the launcher.
#[verifier::spinoff_prover]
#[verifier::rlimit(40)]
pub proof fn law_config_changes_only_in_settings(s: CastItView, m: MessageView, env: EnvironmentView)
    ensures
        ({
            let c = step(s, m, env).0.config;
            &&& ConfigView { favorites: s.config.favorites, history: s.config.history, ..c } != s.config
                ==> s.mode == Mode::Settings && (m is ArrowLeft || m is ArrowRight)
            &&& c.favorites != s.config.favorites ==> s.mode == Mode::Launcher && m is ToggleFavorite
            &&& c.history != s.config.history ==> s.mode == Mode::Launcher && (m is Submit
                || m is SelectEntry)
        }),
{
}

/// Law: the selected settings item stays on the list (0 to 6).
#[verifier::spinoff_prover]
#[verifier::rlimit(40)]
pub proof fn law_setting_selection_bounded(s: CastItView, m: MessageView, env: EnvironmentView)
    requires
        s.selected_setting <= 6,
    ensures
        step(s, m, env).0.selected_setting <= 6,
{
}

/// Law: moving down or up a non-empty result list keeps the selection on the list.
#[verifier::spinoff_prover]
#[verifier::rlimit(40)]
pub proof fn law_selection_stays_on_list(s: CastItView, m: MessageView, env: EnvironmentView)
    requires
        m is ArrowDown || m is ArrowUp,
        s.mode == Mode::Launcher || s.mode == Mode::FileBrowser,
        s.mode == Mode::Launcher ==> s.filtered_entries.len() > 0 && (m is ArrowUp ==> s.selected_index < s.filtered_entries.len()),
        s.mode == Mode::FileBrowser ==> s.filtered_files.len() > 0 && (m is ArrowUp ==> s.selected_index < s.filtered_files.len()),
    ensures
        s.mode == Mode::Launcher ==> step(s, m, env).0.selected_index < s.filtered_entries.len(),
        s.mode == Mode::FileBrowser ==> step(s, m, env).0.selected_index < s.filtered_files.len(),
{
}

/// Law: once the listing of the directory a path query names has come, refreshing
/// the file results asks for no other listing: it filters and asks only for icons.
pub proof fn law_listed_directory_is_filtered(s: CastItView, env: EnvironmentView)
    requires
        path_query(s.query, crate::state::path_home(env)) matches Some((parent, _)) && parent
            == s.current_parent_dir,
    ensures
        refresh_files(s, env).1.len() == 1,
        refresh_files(s, env).1[0] is ResolveFileIcons,
{
}

// ---------------------------------------------------------------------------
// Laws of the settings values
// ---------------------------------------------------------------------------

/// Law: a smaller window is never under the floor, a bigger one never over the cap,
/// and a size within the range stays within it either way.
pub proof fn law_sizes_bounded(v: u32)
    ensures
        size_down(v, 50, 400) >= 400,
        size_up(v, 50, 1920) <= 1920,
        size_down(v, 50, 300) >= 300,
        size_up(v, 50, 1080) <= 1080,
        400 <= v <= 1920 ==> 400 <= size_up(v, 50, 1920) <= 1920 && 400 <= size_down(v, 50, 400) <= 1920,
        300 <= v <= 1080 ==> 300 <= size_up(v, 50, 1080) <= 1080 && 300 <= size_down(v, 50, 300) <= 1080,
{
}

/// Law: toggling the language twice gives back `EN` or `ES`.
pub proof fn law_language_toggle_twice(l: Chars)
    requires
        l == "EN"@ || l == "ES"@,
    ensures
        toggled_language(Some(toggled_language(Some(l)))) == l,
{
    reveal_strlit("EN");
    reveal_strlit("ES");
}

// ---------------------------------------------------------------------------
// Laws of the fuzzy search
// ---------------------------------------------------------------------------

broadcast use vstd::seq_lib::group_to_multiset_ensures;

/// Each key of `match_keys` stands for a shown candidate that matches with its score,
/// and the keys follow the candidates' order.
pub proof fn lemma_match_keys_facts(scores: Seq<Option<u32>>, shown: Seq<bool>)
    requires
        shown.len() == scores.len(),
        scores.len() <= usize::MAX,
    ensures
        forall|k: int|
            0 <= k < match_keys(scores, shown).len() ==> {
                let m = #[trigger] match_keys(scores, shown)[k];
                &&& m.2 < scores.len()
                &&& shown[m.2 as int]
                &&& scores[m.2 as int] matches Some(sc) && m == match_key(sc, m.2 as int)
            },
        forall|a: int, b: int|
            0 <= a < b < match_keys(scores, shown).len() ==> #[trigger] match_keys(scores, shown)[a].2
                < #[trigger] match_keys(scores, shown)[b].2,
        forall|p: int|
            0 <= p < scores.len() && shown[p] && #[trigger] scores[p] is Some
                ==> match_keys(scores, shown).contains(match_key(scores[p]->0, p)),
    decreases scores.len(),
{
    if scores.len() > 0 {
        let n = scores.len() - 1;
        let nd = scores.drop_last();
        let sd = shown.drop_last();
        lemma_match_keys_facts(nd, sd);
        let rest = match_keys(nd, sd);
        let all = match_keys(scores, shown);
        assert forall|k: int| 0 <= k < rest.len() implies (#[trigger] rest[k]).2 < n by {
            assert(rest[k].2 < nd.len());
        }
        assert forall|k: int| 0 <= k < all.len() implies {
            let m = #[trigger] all[k];
            &&& m.2 < scores.len()
            &&& shown[m.2 as int]
            &&& scores[m.2 as int] matches Some(sc) && m == match_key(sc, m.2 as int)
        } by {
            if k < rest.len() {
                assert(all[k] == rest[k]);
                assert(scores[rest[k].2 as int] == nd[rest[k].2 as int]);
                assert(shown[rest[k].2 as int] == sd[rest[k].2 as int]);
            } else {
                let sc = scores.last()->0;
                assert(all[k] == match_key(sc, n));
                assert(shown.last() == shown[n]);
            }
        }
        assert forall|a: int, b: int| 0 <= a < b < all.len() implies #[trigger] all[a].2 < #[trigger] all[b].2 by {
            assert(all[a] == rest[a]);
            if b < rest.len() {
                assert(all[b] == rest[b]);
            } else {
                let sc = scores.last()->0;
                assert(all[b] == match_key(sc, n));
            }
        }
        assert forall|p: int| 0 <= p < scores.len() && shown[p] && #[trigger] scores[p] is Some implies all.contains(
            match_key(scores[p]->0, p),
        ) by {
            if p < n {
                assert(scores[p] == nd[p]);
                assert(shown[p] == sd[p]);
                assert(nd[p] is Some);
                let x = match_key(scores[p]->0, p);
                let j = choose|j: int| 0 <= j < rest.len() && rest[j] == x;
                assert(all[j] == x);
            } else {
                assert(all[all.len() - 1] == match_key(scores[p]->0, p));
            }
        }
    }
}

/// A sequence in which an element sits at two places holds it at least twice.
proof fn lemma_two_places_count(s: Seq<KeyView>, i: int, j: int)
    requires
        0 <= i < j < s.len(),
        s[i] == s[j],
    ensures
        s.to_multiset().count(s[i]) >= 2,
{
    let r = s.remove(i);
    assert(r.to_multiset() == s.to_multiset().remove(s[i]));
    assert(r[j - 1] == s[j]);
    assert(r.contains(s[i]));
    assert(r.to_multiset().count(s[i]) >= 1);
}

/// An element found once in a sequence with distinct elements counts once.
proof fn lemma_distinct_count(s: Seq<KeyView>, x: KeyView)
    requires
        forall|a: int, b: int| 0 <= a < b < s.len() ==> #[trigger] s[a] != #[trigger] s[b],
    ensures
        s.to_multiset().count(x) <= 1,
    decreases s.len(),
{
    if s.len() > 0 {
        let r = s.drop_last();
        assert forall|a: int, b: int| 0 <= a < b < r.len() implies #[trigger] r[a] != #[trigger] r[b] by {
            assert(r[a] == s[a] && r[b] == s[b]);
        }
        lemma_distinct_count(r, x);
        assert(s =~= r.push(s.last()));
        assert(s.to_multiset() =~= r.to_multiset().insert(s.last())) by {
            vstd::seq_lib::lemma_multiset_commutative(r, seq![s.last()]);
            assert(r + seq![s.last()] =~= s);
        }
        if x == s.last() {
            if r.contains(x) {
                let k = choose|k: int| 0 <= k < r.len() && r[k] == x;
                assert(s[k] == s[s.len() - 1]);
            }
            assert(r.to_multiset().count(x) == 0);
        }
    }
}

/// Law: a search shows at most `RESULT_LIMIT` (eight) results; each is a shown
/// candidate that has a score, with that score; they come best score first, and equal
/// scores in the candidates' order; and when no more than eight candidates match,
/// every one of them is shown.
pub proof fn law_best_matches(scores: Seq<Option<u32>>, shown: Seq<bool>)
    requires
        shown.len() == scores.len(),
        scores.len() <= usize::MAX,
    ensures
        best_matches(scores, shown).len() <= RESULT_LIMIT,
        forall|k: int|
            0 <= k < best_matches(scores, shown).len() ==> {
                let (p, sc) = #[trigger] key_hit(best_matches(scores, shown)[k]);
                &&& p < scores.len()
                &&& shown[p as int]
                &&& scores[p as int] == Some(sc)
            },
        forall|a: int, b: int|
            0 <= a < b < best_matches(scores, shown).len() ==> {
                let x = #[trigger] key_hit(best_matches(scores, shown)[a]);
                let y = #[trigger] key_hit(best_matches(scores, shown)[b]);
                x.1 > y.1 || (x.1 == y.1 && x.0 < y.0)
            },
        match_keys(scores, shown).len() <= RESULT_LIMIT ==> forall|p: int|
            0 <= p < scores.len() && shown[p] && #[trigger] scores[p] is Some
                ==> exists|k: int|
                0 <= k < best_matches(scores, shown).len() && (#[trigger] key_hit(
                    best_matches(scores, shown)[k],
                )).0 == p,
{
    let mk = match_keys(scores, shown);
    let all = sorted_keys(mk);
    let best = best_matches(scores, shown);
    lemma_match_keys_facts(scores, shown);
    lemma_key_le_total_ordering();
    mk.lemma_sort_by_ensures(key_order());
    crate::sort::lemma_sorted_keys_len(mk);
    assert forall|k: int| 0 <= k < best.len() implies best[k] == all[k] by {}
    assert forall|k: int| 0 <= k < all.len() implies mk.contains(#[trigger] all[k]) by {
        crate::sort::lemma_sorted_keys_contains(mk, k);
    }
    assert forall|k: int| 0 <= k < best.len() implies {
        let (p, sc) = #[trigger] key_hit(best[k]);
        &&& p < scores.len()
        &&& shown[p as int]
        &&& scores[p as int] == Some(sc)
    } by {
        assert(mk.contains(all[k]));
        let j = choose|j: int| 0 <= j < mk.len() && mk[j] == all[k];
        let m = mk[j];
        let sc = scores[m.2 as int]->0;
        assert(m == match_key(sc, m.2 as int));
        assert((u32::MAX - (u32::MAX - sc) as u32) as u32 == sc);
    }
    assert forall|a: int, b: int| 0 <= a < b < mk.len() implies #[trigger] mk[a] != #[trigger] mk[b] by {
        assert(mk[a].2 < mk[b].2);
    }
    assert forall|a: int, b: int| 0 <= a < b < best.len() implies {
        let x = #[trigger] key_hit(best[a]);
        let y = #[trigger] key_hit(best[b]);
        x.1 > y.1 || (x.1 == y.1 && x.0 < y.0)
    } by {
        assert(sorted_by(all, key_order()));
        assert(key_order()(all[a], all[b]));
        assert(key_le(all[a], all[b]));
        assert(mk.contains(all[a]));
        assert(mk.contains(all[b]));
        let ja = choose|j: int| 0 <= j < mk.len() && mk[j] == all[a];
        let jb = choose|j: int| 0 <= j < mk.len() && mk[j] == all[b];
        let sa = scores[mk[ja].2 as int]->0;
        let sb = scores[mk[jb].2 as int]->0;
        assert(all[a] == match_key(sa, all[a].2 as int));
        assert(all[b] == match_key(sb, all[b].2 as int));
        if all[a] == all[b] {
            lemma_two_places_count(all, a, b);
            lemma_distinct_count(mk, all[a]);
        }
    }
    if mk.len() <= RESULT_LIMIT {
        assert forall|p: int| 0 <= p < scores.len() && shown[p] && #[trigger] scores[p] is Some implies exists|k: int|
            0 <= k < best.len() && (#[trigger] key_hit(best[k])).0 == p by {
            let x = match_key(scores[p]->0, p);
            assert(mk.contains(x));
            assert(mk.to_multiset().count(x) > 0);
            assert(all.to_multiset().count(x) > 0);
            assert(all.contains(x));
            let k = choose|k: int| 0 <= k < all.len() && all[k] == x;
            assert(best[k] == x);
            assert(key_hit(best[k]).0 == p);
        }
    }
}

/// Every entry kept by `visible_files` is shown.
proof fn lemma_visible_files_shown(entries: Seq<FileEntryView>, filter: Chars)
    ensures
        forall|k: int|
            0 <= k < visible_files(entries, filter).len() ==> file_shown(
                (#[trigger] visible_files(entries, filter)[k]).name,
                filter,
            ),
    decreases entries.len(),
{
    if entries.len() > 0 {
        lemma_visible_files_shown(entries.drop_last(), filter);
        let rest = visible_files(entries.drop_last(), filter);
        let v = visible_files(entries, filter);
        assert forall|k: int| 0 <= k < v.len() implies file_shown((#[trigger] v[k]).name, filter) by {
            if k < rest.len() {
                assert(v[k] == rest[k]);
            }
        }
    }
}

/// Law: the file browser hides dotfiles unless the filter starts with a dot.
pub proof fn law_dotfiles_hidden(filter: Chars, entries: Seq<FileEntryView>)
    requires
        entries.len() <= usize::MAX,
    ensures
        forall|k: int|
            0 <= k < file_results(filter, entries).len() ==> file_shown(
                (#[trigger] file_results(filter, entries)[k]).0.name,
                filter,
            ),
{
    let r = file_results(filter, entries);
    if filter.len() == 0 {
        lemma_visible_files_shown(entries, filter);
    } else {
        let names = entries.map_values(|e: FileEntryView| e.name);
        let flags = entries.map_values(|e: FileEntryView| file_shown(e.name, filter));
        law_best_matches(name_scores(filter, names), flags);
        let best = best_matches(name_scores(filter, names), flags);
        assert forall|k: int| 0 <= k < r.len() implies file_shown((#[trigger] r[k]).0.name, filter) by {
            let (p, sc) = key_hit(best[k]);
            assert(flags[p as int]);
            assert(r[k].0 == entries[p as int]);
        }
    }
}

// ---------------------------------------------------------------------------
// Laws of the application list
// ---------------------------------------------------------------------------

/// What `first_of_each_name` keeps: one entry per name, each the first of its name,
/// and every name found.
#[verifier::spinoff_prover]
pub proof fn lemma_first_of_each_name(es: Seq<AppEntryView>)
    ensures
        forall|a: int, b: int|
            0 <= a < b < first_of_each_name(es).len() ==> (#[trigger] first_of_each_name(es)[a]).name
                != (#[trigger] first_of_each_name(es)[b]).name,
        forall|k: int|
            0 <= k < first_of_each_name(es).len() ==> exists|i: int|
                0 <= i < es.len() && es[i] == #[trigger] first_of_each_name(es)[k] && !name_seen_before(
                    es,
                    i,
                ),
        forall|i: int|
            0 <= i < es.len() ==> exists|k: int|
                0 <= k < first_of_each_name(es).len() && (#[trigger] first_of_each_name(es)[k]).name
                    == (#[trigger] es[i]).name,
    decreases es.len(),
{
    if es.len() > 0 {
        let r = es.drop_last();
        let n = es.len() - 1;
        lemma_first_of_each_name(r);
        let dr = first_of_each_name(r);
        let d = first_of_each_name(es);
        assert forall|i: int| 0 <= i < n implies name_seen_before(es, i) == name_seen_before(r, i) by {
            if name_seen_before(es, i) {
                let j = choose|j: int| 0 <= j < i && es[j].name == es[i].name;
                assert(r[j].name == r[i].name);
            }
            if name_seen_before(r, i) {
                let j = choose|j: int| 0 <= j < i && r[j].name == r[i].name;
                assert(es[j].name == es[i].name);
            }
        }
        assert forall|k: int| 0 <= k < d.len() implies exists|i: int|
            0 <= i < es.len() && es[i] == #[trigger] d[k] && !name_seen_before(es, i) by {
            if k < dr.len() {
                assert(d[k] == dr[k]);
                let i = choose|i: int| 0 <= i < r.len() && r[i] == dr[k] && !name_seen_before(r, i);
                assert(es[i] == r[i]);
            } else {
                assert(d[k] == es[n]);
            }
        }
        if !name_seen_before(es, n) {
            assert forall|k: int| 0 <= k < dr.len() implies (#[trigger] dr[k]).name != es[n].name by {
                let i = choose|i: int| 0 <= i < r.len() && r[i] == dr[k] && !name_seen_before(r, i);
                assert(es[i] == dr[k]);
                if dr[k].name == es[n].name {
                    assert(name_seen_before(es, n));
                }
            }
        }
        assert forall|a: int, b: int| 0 <= a < b < d.len() implies (#[trigger] d[a]).name != (#[trigger] d[b]).name by {
            assert(d[a] == dr[a]);
            if b < dr.len() {
                assert(d[b] == dr[b]);
            } else {
                assert(d[b] == es[n]);
            }
        }
        assert forall|i: int| 0 <= i < es.len() implies exists|k: int|
            0 <= k < d.len() && (#[trigger] d[k]).name == (#[trigger] es[i]).name by {
            if i < n {
                assert(es[i] == r[i]);
                let k = choose|k: int| 0 <= k < dr.len() && (#[trigger] dr[k]).name == r[i].name;
                assert(d[k] == dr[k]);
            } else if name_seen_before(es, n) {
                let j = choose|j: int| 0 <= j < n && es[j].name == es[n].name;
                assert(es[j] == r[j]);
                let k = choose|k: int| 0 <= k < dr.len() && (#[trigger] dr[k]).name == r[j].name;
                assert(d[k] == dr[k]);
            } else {
                assert(d[dr.len() as int] == es[n]);
            }
        }
    }
}

/// Keys whose third part is their own position stay distinct and keep pointing at
/// themselves when ordered; and every position shows up once ordered.
proof fn lemma_indexed_keys_sorted(keys: Seq<KeyView>)
    requires
        keys.len() <= usize::MAX,
        forall|q: int| 0 <= q < keys.len() ==> (#[trigger] keys[q]).2 == q,
    ensures
        sorted_keys(keys).len() == keys.len(),
        forall|k: int|
            0 <= k < sorted_keys(keys).len() ==> (#[trigger] sorted_keys(keys)[k]).2 < keys.len()
                && sorted_keys(keys)[k] == keys[sorted_keys(keys)[k].2 as int],
        forall|a: int, b: int|
            0 <= a < b < sorted_keys(keys).len() ==> (#[trigger] sorted_keys(keys)[a]).2
                != (#[trigger] sorted_keys(keys)[b]).2,
        sorted_by(sorted_keys(keys), key_order()),
{
    let all = sorted_keys(keys);
    lemma_key_le_total_ordering();
    keys.lemma_sort_by_ensures(key_order());
    crate::sort::lemma_sorted_keys_len(keys);
    assert forall|k: int| 0 <= k < all.len() implies (#[trigger] all[k]).2 < keys.len() && all[k] == keys[all[k].2 as int] by {
        crate::sort::lemma_sorted_keys_contains(keys, k);
        let q = choose|q: int| 0 <= q < keys.len() && keys[q] == all[k];
        assert(keys[q].2 == q);
    }
    assert forall|a: int, b: int| 0 <= a < b < keys.len() implies #[trigger] keys[a] != #[trigger] keys[b] by {
        assert(keys[a].2 != keys[b].2);
    }
    assert forall|a: int, b: int| 0 <= a < b < all.len() implies (#[trigger] all[a]).2 != (#[trigger] all[b]).2 by {
        if all[a] == all[b] {
            lemma_two_places_count(all, a, b);
            lemma_distinct_count(keys, all[a]);
        }
    }
}

/// Every key shows up in the ordered form.
proof fn lemma_sorted_keys_has(keys: Seq<KeyView>, q: int)
    requires
        0 <= q < keys.len(),
    ensures
        exists|k: int| 0 <= k < sorted_keys(keys).len() && sorted_keys(keys)[k] == keys[q],
{
    let all = sorted_keys(keys);
    lemma_key_le_total_ordering();
    keys.lemma_sort_by_ensures(key_order());
    assert(keys.contains(keys[q]));
    assert(keys.to_multiset().count(keys[q]) > 0);
    assert(all.to_multiset().count(keys[q]) > 0);
    assert(all.contains(keys[q]));
}

/// Law: the application list has one entry per name, the first one found (so user-local
/// files override system ones); it holds every name found; and it is ordered by
/// lowercased name.
#[verifier::rlimit(40)]
pub proof fn law_catalog(found: Seq<AppEntryView>)
    requires
        found.len() <= usize::MAX,
    ensures
        forall|a: int, b: int|
            0 <= a < b < app_catalog(found).len() ==> (#[trigger] app_catalog(found)[a]).name
                != (#[trigger] app_catalog(found)[b]).name,
        forall|k: int|
            0 <= k < app_catalog(found).len() ==> exists|i: int|
                0 <= i < found.len() && found[i] == #[trigger] app_catalog(found)[k] && !name_seen_before(
                    found,
                    i,
                ),
        forall|i: int|
            0 <= i < found.len() ==> exists|k: int|
                0 <= k < app_catalog(found).len() && (#[trigger] app_catalog(found)[k]).name
                    == (#[trigger] found[i]).name,
        forall|a: int, b: int|
            0 <= a < b < app_catalog(found).len() ==> lex_le(
                lowercase_of((#[trigger] app_catalog(found)[a]).name),
                lowercase_of((#[trigger] app_catalog(found)[b]).name),
            ),
{
    let d = first_of_each_name(found);
    lemma_first_of_each_name(found);
    lemma_first_len(found);
    let keys = name_order_keys(d);
    let all = sorted_keys(keys);
    let c = app_catalog(found);
    lemma_indexed_keys_sorted(keys);
    assert forall|k: int| 0 <= k < c.len() implies #[trigger] c[k] == d[all[k].2 as int] by {}
    assert forall|a: int, b: int| 0 <= a < b < c.len() implies (#[trigger] c[a]).name != (#[trigger] c[b]).name by {
        let (x, y) = (all[a].2 as int, all[b].2 as int);
        assert(c[a] == d[x] && c[b] == d[y]);
        if x < y {
            assert(d[x].name != d[y].name);
        } else {
            assert(d[y].name != d[x].name);
        }
    }
    assert forall|k: int| 0 <= k < c.len() implies exists|i: int|
        0 <= i < found.len() && found[i] == #[trigger] c[k] && !name_seen_before(found, i) by {
        let q = all[k].2 as int;
        assert(c[k] == d[q]);
    }
    assert forall|i: int| 0 <= i < found.len() implies exists|k: int|
        0 <= k < c.len() && (#[trigger] c[k]).name == (#[trigger] found[i]).name by {
        let q = choose|q: int| 0 <= q < d.len() && (#[trigger] d[q]).name == found[i].name;
        lemma_sorted_keys_has(keys, q);
        let k = choose|k: int| 0 <= k < all.len() && all[k] == keys[q];
        assert(c[k] == d[q]);
    }
    assert forall|a: int, b: int| 0 <= a < b < c.len() implies lex_le(
        lowercase_of((#[trigger] c[a]).name),
        lowercase_of((#[trigger] c[b]).name),
    ) by {
        assert(key_order()(all[a], all[b]));
        assert(key_le(all[a], all[b]));
        crate::sort::lemma_lex_reflexive(all[a].1);
        assert(all[a] == keys[all[a].2 as int]);
        assert(all[b] == keys[all[b].2 as int]);
    }
}

proof fn lemma_first_len(es: Seq<AppEntryView>)
    ensures
        first_of_each_name(es).len() <= es.len(),
    decreases es.len(),
{
    if es.len() > 0 {
        lemma_first_len(es.drop_last());
    }
}

// ---------------------------------------------------------------------------
// Laws of `.desktop` parsing
// ---------------------------------------------------------------------------

proof fn lemma_remove_field_codes_clean(s: Chars)
    ensures
        !has_char(remove_field_codes(s), '%'),
    decreases s.len(),
{
    if s.len() == 0 {
    } else if s[0] == '%' {
        if s.len() > 1 {
            lemma_remove_field_codes_clean(s.subrange(2, s.len() as int));
        }
    } else {
        lemma_remove_field_codes_clean(s.drop_first());
        let r = remove_field_codes(s.drop_first());
        let t = seq![s[0]] + r;
        assert forall|k: int| 0 <= k < t.len() implies t[k] != '%' by {
            if k > 0 {
                assert(t[k] == r[k - 1]);
            }
        }
    }
}

/// Trimming keeps only characters of the sequence.
pub proof fn lemma_trim_within(s: Chars, c: char)
    requires
        !has_char(s, c),
    ensures
        !has_char(trim_start(s), c),
        !has_char(trim_end(s), c),
        !has_char(trim(s), c),
    decreases s.len(),
{
    if s.len() > 0 {
        assert(!has_char(s.drop_first(), c)) by {
            assert forall|k: int| 0 <= k < s.drop_first().len() implies s.drop_first()[k] != c by {
                assert(s.drop_first()[k] == s[k + 1]);
            }
        }
        assert(!has_char(s.drop_last(), c)) by {
            assert forall|k: int| 0 <= k < s.drop_last().len() implies s.drop_last()[k] != c by {
                assert(s.drop_last()[k] == s[k]);
            }
        }
        lemma_trim_within(s.drop_first(), c);
        lemma_trim_within(s.drop_last(), c);
    }
    if !has_char(trim_start(s), c) {
        lemma_trim_end_within(trim_start(s), c);
    }
}

proof fn lemma_trim_end_within(s: Chars, c: char)
    requires
        !has_char(s, c),
    ensures
        !has_char(trim_end(s), c),
    decreases s.len(),
{
    if s.len() > 0 {
        assert(!has_char(s.drop_last(), c)) by {
            assert forall|k: int| 0 <= k < s.drop_last().len() implies s.drop_last()[k] != c by {
                assert(s.drop_last()[k] == s[k]);
            }
        }
        lemma_trim_end_within(s.drop_last(), c);
    }
}

/// Law: a command taken from an `Exec` line holds no `%`: every field code is gone.
pub proof fn law_exec_has_no_field_codes(exec: Chars)
    ensures
        !has_char(exec_command(exec), '%'),
{
    lemma_remove_field_codes_clean(exec);
    lemma_trim_within(remove_field_codes(exec), '%');
}

/// Removing field codes keeps a command without `%` as it is, and never lengthens one.
proof fn lemma_remove_field_codes_shape(s: Chars)
    ensures
        remove_field_codes(s).len() <= s.len(),
        !has_char(s, '%') ==> remove_field_codes(s) == s,
    decreases s.len(),
{
    if s.len() > 0 {
        if s[0] == '%' {
            if s.len() > 1 {
                lemma_remove_field_codes_shape(s.subrange(2, s.len() as int));
            }
        } else {
            lemma_remove_field_codes_shape(s.drop_first());
            if !has_char(s, '%') {
                assert(!has_char(s.drop_first(), '%')) by {
                    assert forall|k: int| 0 <= k < s.drop_first().len() implies s.drop_first()[k] != '%' by {
                        assert(s.drop_first()[k] == s[k + 1]);
                    }
                }
                assert(seq![s[0]] + s.drop_first() =~= s);
            }
        }
    }
}

/// What is left after trimming leading whitespace starts with none.
proof fn lemma_trim_start_shape(s: Chars)
    ensures
        trim_start(s).len() <= s.len(),
        trim_start(s).len() > 0 ==> !is_ws(trim_start(s)[0]),
    decreases s.len(),
{
    if s.len() > 0 && is_ws(s[0]) {
        lemma_trim_start_shape(s.drop_first());
    }
}

/// What is left after trimming trailing whitespace ends with none, and begins `s`.
proof fn lemma_trim_end_shape(s: Chars)
    ensures
        trim_end(s).len() <= s.len(),
        trim_end(s).len() > 0 ==> !is_ws(trim_end(s).last()),
        trim_end(s) == s.take(trim_end(s).len() as int),
    decreases s.len(),
{
    if s.len() > 0 && is_ws(s.last()) {
        lemma_trim_end_shape(s.drop_last());
        let t = trim_end(s.drop_last());
        assert(s.drop_last().take(t.len() as int) =~= s.take(t.len() as int));
    } else {
        assert(s.take(s.len() as int) =~= s);
    }
}

/// Trimming a trimmed text changes nothing, and trimming never lengthens a text.
proof fn lemma_trim_twice(s: Chars)
    ensures
        trim(trim(s)) == trim(s),
        trim(s).len() <= s.len(),
{
    let y = trim_start(s);
    let t = trim_end(y);
    lemma_trim_start_shape(s);
    lemma_trim_end_shape(y);
    if t.len() > 0 {
        assert(t[0] == y[0]);
    }
    assert(trim_start(t) == t);
    assert(trim_end(t) == t);
}

/// Law: a command taken from an `Exec` line holds no `%`, has no whitespace at either
/// end, is no longer than the `Exec` value, and taking the command from it again
/// changes nothing.
pub proof fn law_strip_field_codes(exec: Chars)
    ensures
        !has_char(exec_command(exec), '%'),
        trim(exec_command(exec)) == exec_command(exec),
        exec_command(exec).len() <= exec.len(),
        exec_command(exec_command(exec)) == exec_command(exec),
{
    let r = exec_command(exec);
    law_exec_has_no_field_codes(exec);
    lemma_remove_field_codes_shape(exec);
    lemma_trim_twice(remove_field_codes(exec));
    lemma_remove_field_codes_shape(r);
}

/// Law: in every mode, Escape quits and Shift+Delete or Shift+Backspace clears the
/// query, whatever the state of Control; the clear returns to the empty launcher.
pub proof fn law_global_keys(mode: Mode, shift: bool, control: bool, s: CastItView, env: EnvironmentView)
    ensures
        key_action(mode, Key::Escape, shift, control) == Some(MessageView::Escape),
        key_action(mode, Key::Delete, true, control) == Some(MessageView::ClearQuery),
        key_action(mode, Key::Backspace, true, control) == Some(MessageView::ClearQuery),
        step(s, MessageView::Escape, env).1 == seq![EffectView::Exit],
        step(s, MessageView::ClearQuery, env).0.mode == Mode::Launcher,
        step(s, MessageView::ClearQuery, env).0.query.len() == 0,
{
    law_escape_exits(s, env);
    law_clear_query_resets(s, env);
}

/// Law: Ctrl+D on the selected launcher result makes it a favourite exactly when it was
/// not one, and saves the change; pressing it again gives back the same favourites, and
/// the very same list when it was not a favourite before.
pub proof fn law_favorite_toggle_twice(s: CastItView, env: EnvironmentView)
    requires
        s.mode == Mode::Launcher,
        s.selected_index < s.filtered_entries.len(),
    ensures
        ({
            let command = s.filtered_entries[s.selected_index as int].0.command;
            let (t, fx) = step(s, MessageView::ToggleFavorite, env);
            let u = step(t, MessageView::ToggleFavorite, env).0;
            &&& fx == seq![EffectView::SaveConfig]
            &&& t.config.favorites.contains(command) <==> !s.config.favorites.contains(command)
            &&& forall|x: Chars| #[trigger] u.config.favorites.contains(x) <==> s.config.favorites.contains(x)
            &&& !s.config.favorites.contains(command) ==> u.config.favorites == s.config.favorites
        }),
{
    let command = s.filtered_entries[s.selected_index as int].0.command;
    crate::favorites::law_toggle_favorite(s.config.favorites, command);
}

/// Law: the dashboard shows at most five most launched applications after the
/// favourites, none of them a favourite, each launched at least once and shown with its
/// launch count, most launched first.
pub proof fn law_dashboard(es: Seq<AppEntryView>, favs: Seq<Chars>, h: Seq<(Chars, u32)>)
    requires
        es.len() <= usize::MAX,
    ensures
        recent_part(es, favs, h).len() <= RECENT_LIMIT,
        forall|k: int|
            0 <= k < recent_part(es, favs, h).len() ==> {
                let p = key_hit(best_matches(recent_scores(es, favs, h), Seq::new(es.len(), |i: int| true))[k]).0;
                &&& p < es.len()
                &&& !favs.contains(es[p as int].command)
                &&& #[trigger] recent_part(es, favs, h)[k].1 == launch_count(h, es[p as int].command)
                &&& launch_count(h, es[p as int].command) > 0
            },
        forall|a: int, b: int|
            0 <= a < b < recent_part(es, favs, h).len() ==> #[trigger] recent_part(es, favs, h)[a].1
                >= #[trigger] recent_part(es, favs, h)[b].1,
{
    let sc = recent_scores(es, favs, h);
    let shown = Seq::new(es.len(), |i: int| true);
    law_best_matches(sc, shown);
    let best = best_matches(sc, shown);
    let r = recent_part(es, favs, h);
    assert forall|k: int| 0 <= k < r.len() implies {
        let p = key_hit(best[k]).0;
        &&& p < es.len()
        &&& !favs.contains(es[p as int].command)
        &&& #[trigger] r[k].1 == launch_count(h, es[p as int].command)
        &&& launch_count(h, es[p as int].command) > 0
    } by {
        let (p, c) = key_hit(best[k]);
        assert(sc[p as int] == Some(c));
    }
    assert forall|a: int, b: int| 0 <= a < b < r.len() implies #[trigger] r[a].1 >= #[trigger] r[b].1 by {
        assert(r[a].1 == key_hit(best[a]).1);
        assert(r[b].1 == key_hit(best[b]).1);
    }
}

/// The first entry of a list that is not `Auto` is one of its entries, and every entry
/// before it is `Auto`.
proof fn lemma_first_real(list: Seq<Chars>)
    ensures
        first_real(list) matches Some(t) ==> exists|i: int|
            0 <= i < list.len() && #[trigger] list[i] == t && t != "Auto"@ && forall|j: int|
                0 <= j < i ==> list[j] == "Auto"@,
        first_real(list) is None ==> forall|j: int| 0 <= j < list.len() ==> #[trigger] list[j] == "Auto"@,
    decreases list.len(),
{
    if list.len() > 0 && list[0] == "Auto"@ {
        let d = list.drop_first();
        lemma_first_real(d);
        if let Some(t) = first_real(d) {
            let i = choose|i: int| 0 <= i < d.len() && #[trigger] d[i] == t && t != "Auto"@ && forall|j: int|
                0 <= j < i ==> d[j] == "Auto"@;
            assert(list[i + 1] == t);
            assert forall|j: int| 0 <= j < i + 1 implies list[j] == "Auto"@ by {
                if j > 0 {
                    assert(list[j] == d[j - 1]);
                }
            }
        } else {
            assert forall|j: int| 0 <= j < list.len() implies #[trigger] list[j] == "Auto"@ by {
                if j > 0 {
                    assert(list[j] == d[j - 1]);
                }
            }
        }
    } else if list.len() > 0 {
        assert(list[0] == first_real(list)->0);
    }
}

/// Law: a command run in a terminal runs in the preferred terminal, or else in the first
/// available one that is not `Auto`, and fails only when there is neither. The terminal
/// gets `sh -c` with the command followed by the line that keeps its window open:
/// after `start --` for wezterm, after `--` for gnome-terminal, and after `-e` for every
/// other terminal.
pub proof fn law_terminal_arguments(command: Chars, preferred: Option<Chars>, available: Seq<Chars>)
    ensures
        ({
            let line = command + "; echo; echo '--- Process finished. Press Enter to close ---'; read -r _"@;
            match terminal_plan(command, preferred, available) {
                Ok((t, args)) => {
                    &&& preferred matches Some(p) ==> t == p
                    &&& preferred is None ==> exists|i: int|
                        0 <= i < available.len() && #[trigger] available[i] == t && t != "Auto"@
                            && forall|j: int| 0 <= j < i ==> available[j] == "Auto"@
                    &&& t == "wezterm"@ ==> args == seq!["start"@, "--"@, "sh"@, "-c"@, line]
                    &&& t == "gnome-terminal"@ ==> args == seq!["--"@, "sh"@, "-c"@, line]
                    &&& t != "wezterm"@ && t != "gnome-terminal"@ ==> args == seq!["-e"@, "sh"@, "-c"@, line]
                },
                Err(e) => {
                    &&& preferred is None
                    &&& forall|j: int| 0 <= j < available.len() ==> #[trigger] available[j] == "Auto"@
                    &&& e == no_terminal_message()
                },
            }
        }),
{
    reveal_strlit("wezterm");
    reveal_strlit("gnome-terminal");
    assert("gnome-terminal"@ != "wezterm"@) by {
        assert("gnome-terminal"@.len() != "wezterm"@.len());
    }
    lemma_first_real(available);
    let line = command + "; echo; echo '--- Process finished. Press Enter to close ---'; read -r _"@;
    assert(terminal_shell_line(command) == line);
    match terminal_plan(command, preferred, available) {
        Ok((t, args)) => {
            assert(args == terminal_args(t, line));
            if preferred is None {
                assert(first_real(available) == Some(t));
            }
            assert(t == "wezterm"@ ==> args == seq!["start"@, "--"@, "sh"@, "-c"@, line]);
            assert(t == "gnome-terminal"@ ==> args == seq!["--"@, "sh"@, "-c"@, line]);
            assert(t != "wezterm"@ && t != "gnome-terminal"@ ==> args == seq!["-e"@, "sh"@, "-c"@, line]);
        },
        Err(e) => {
            assert(preferred is None);
            assert(first_real(available) is None);
        },
    }
}

/// The positions of the favourite applications, in list order.
proof fn lemma_favorite_part(es: Seq<AppEntryView>, favs: Seq<Chars>) -> (pos: Seq<int>)
    ensures
        pos.len() == favorite_part(es, favs).len(),
        forall|j: int| 0 <= j < pos.len() ==> 0 <= #[trigger] pos[j] < es.len() && favs.contains(es[pos[j]].command)
            && favorite_part(es, favs)[j] == (with_direct_icon(es[pos[j]]), 0u32),
        forall|a: int, b: int| 0 <= a < b < pos.len() ==> #[trigger] pos[a] < #[trigger] pos[b],
        forall|i: int| 0 <= i < es.len() && favs.contains(#[trigger] es[i].command) ==> pos.contains(i),
    decreases es.len(),
{
    if es.len() == 0 {
        Seq::empty()
    } else {
        let d = es.drop_last();
        let p = lemma_favorite_part(d, favs);
        let n = es.len() - 1;
        let f = favorite_part(es, favs);
        if favs.contains(es.last().command) {
            let q = p.push(n);
            assert forall|j: int| 0 <= j < q.len() implies 0 <= #[trigger] q[j] < es.len() && favs.contains(
                es[q[j]].command,
            ) && f[j] == (with_direct_icon(es[q[j]]), 0u32) by {
                if j < p.len() {
                    assert(q[j] == p[j]);
                    assert(d[p[j]] == es[p[j]]);
                }
            }
            assert forall|i: int| 0 <= i < es.len() && favs.contains(#[trigger] es[i].command) implies q.contains(i) by {
                if i < n {
                    assert(d[i] == es[i]);
                    assert(p.contains(i));
                    let j = choose|j: int| 0 <= j < p.len() && p[j] == i;
                    assert(q[j] == i);
                } else {
                    assert(q[p.len() as int] == i);
                }
            }
            q
        } else {
            assert forall|j: int| 0 <= j < p.len() implies 0 <= #[trigger] p[j] < es.len() && favs.contains(
                es[p[j]].command,
            ) && f[j] == (with_direct_icon(es[p[j]]), 0u32) by {
                assert(d[p[j]] == es[p[j]]);
            }
            assert forall|i: int| 0 <= i < es.len() && favs.contains(#[trigger] es[i].command) implies p.contains(i) by {
                assert(i < n);
                assert(d[i] == es[i]);
            }
            p
        }
    }
}

/// Law: the dashboard begins with every favourite application, each exactly once and
/// scored 0, in the order of the application list, and nothing else before the most
/// launched ones. It gives the positions in the application list of the favourites shown.
pub proof fn law_dashboard_favorites(es: Seq<AppEntryView>, favs: Seq<Chars>, h: Seq<(Chars, u32)>) -> (pos: Seq<int>)
    requires
        es.len() <= usize::MAX,
    ensures
        pos.len() <= dashboard(es, favs, h).len(),
        forall|j: int|
            0 <= j < pos.len() ==> 0 <= #[trigger] pos[j] < es.len() && favs.contains(es[pos[j]].command)
                && dashboard(es, favs, h)[j] == (with_direct_icon(es[pos[j]]), 0u32),
        forall|a: int, b: int| 0 <= a < b < pos.len() ==> #[trigger] pos[a] < #[trigger] pos[b],
        forall|i: int| 0 <= i < es.len() && favs.contains(#[trigger] es[i].command) ==> pos.contains(i),
        forall|j: int|
            pos.len() <= j < dashboard(es, favs, h).len() ==> !favs.contains(
                (#[trigger] dashboard(es, favs, h)[j]).0.command,
            ),
{
    let pos = lemma_favorite_part(es, favs);
    let f = favorite_part(es, favs);
    let d = dashboard(es, favs, h);
    law_dashboard(es, favs, h);
    let shown = Seq::new(es.len(), |i: int| true);
    let best = best_matches(recent_scores(es, favs, h), shown);
    let r = recent_part(es, favs, h);
    assert forall|j: int| 0 <= j < pos.len() implies 0 <= #[trigger] pos[j] < es.len() && favs.contains(
        es[pos[j]].command,
    ) && d[j] == (with_direct_icon(es[pos[j]]), 0u32) by {
        assert(d[j] == f[j]);
    }
    assert forall|j: int| pos.len() <= j < d.len() implies !favs.contains((#[trigger] d[j]).0.command) by {
        let k = j - f.len();
        assert(d[j] == r[k]);
        let p = key_hit(best[k]).0;
        assert(r[k].1 == launch_count(h, es[p as int].command));
        assert(r[k].0 == with_direct_icon(es[p as int]));
        assert(with_direct_icon(es[p as int]).command == es[p as int].command);
    }
    pos
}

/// Law: a line of the `[Desktop Entry]` section sets the description exactly when its
/// trimmed key is `Comment`; a line with any other key, such as `Comment[es]`, leaves the
/// description as it was.
pub proof fn law_comment_line(st: DesktopScan, raw: Chars, key: Chars, value: Chars)
    requires
        !st.done,
        st.in_entry,
        trim(raw) == key + seq!['='] + value,
        !has_char(key, '='),
        key.len() > 0 && key[0] != '[',
    ensures
        trim(key) == "Comment"@ ==> scan_line(st, raw).comment == Some(trim(value)),
        trim(key) != "Comment"@ ==> scan_line(st, raw).comment == st.comment,
{
    let line = trim(raw);
    reveal_strlit("[Desktop Entry]");
    assert(line[0] == key[0]);
    assert(line != "[Desktop Entry]"@);
    let k = key.len() as int;
    assert(line[k] == '=');
    assert(has_char(line, '='));
    let kk = choose|i: int| 0 <= i < line.len() && line[i] == '=' && forall|j: int| 0 <= j < i ==> line[j] != '=';
    if kk < k {
        assert(line[kk] == key[kk]);
    } else if kk > k {
        assert(line[k] != '=');
    }
    assert(line.take(k) =~= key);
    assert(line.skip(k + 1) =~= value);
    reveal_strlit("Comment");
    reveal_strlit("Type");
    reveal_strlit("Name");
    reveal_strlit("Exec");
    reveal_strlit("Icon");
    if trim(key) == "Comment"@ {
        assert(trim(key) != "Type"@ && trim(key) != "Name"@ && trim(key) != "Exec"@ && trim(key) != "Icon"@) by {
            assert("Comment"@.len() == 7);
        }
        assert(split_once_eq(line) == Some((key, value)));
        assert(scan_line(st, raw) == scan_key(st, trim(key), trim(value)));
    }
}

/// Law: a sorted listing holds every entry once, puts folders before files, and orders
/// the folders, and the files, by lowercased name.
pub proof fn law_listing_order(es: Seq<FileEntryView>)
    requires
        es.len() <= usize::MAX,
    ensures
        sorted_listing(es).len() == es.len(),
        forall|i: int| 0 <= i < es.len() ==> sorted_listing(es).contains(#[trigger] es[i]),
        forall|a: int, b: int|
            0 <= a < b < sorted_listing(es).len() ==> (#[trigger] sorted_listing(es)[a]).is_dir
                || !(#[trigger] sorted_listing(es)[b]).is_dir,
        forall|a: int, b: int|
            0 <= a < b < sorted_listing(es).len() && (#[trigger] sorted_listing(es)[a]).is_dir
                == (#[trigger] sorted_listing(es)[b]).is_dir ==> lex_le(
                lowercase_of(sorted_listing(es)[a].name),
                lowercase_of(sorted_listing(es)[b].name),
            ),
{
    let keys = listing_keys(es);
    let all = sorted_keys(keys);
    let l = sorted_listing(es);
    assert forall|q: int| 0 <= q < keys.len() implies (#[trigger] keys[q]).2 == q by {}
    lemma_indexed_keys_sorted(keys);
    assert forall|k: int| 0 <= k < l.len() implies #[trigger] l[k] == es[all[k].2 as int] by {}
    assert forall|i: int| 0 <= i < es.len() implies l.contains(#[trigger] es[i]) by {
        lemma_sorted_keys_has(keys, i);
        let k = choose|k: int| 0 <= k < all.len() && all[k] == keys[i];
        assert(l[k] == es[i]);
    }
    assert forall|a: int, b: int| 0 <= a < b < l.len() implies (#[trigger] l[a]).is_dir || !(#[trigger] l[b]).is_dir by {
        assert(key_order()(all[a], all[b]));
        assert(key_le(all[a], all[b]));
        assert(all[a] == keys[all[a].2 as int]);
        assert(all[b] == keys[all[b].2 as int]);
    }
    assert forall|a: int, b: int| 0 <= a < b < l.len() && (#[trigger] l[a]).is_dir == (#[trigger] l[b]).is_dir implies lex_le(
        lowercase_of(l[a].name),
        lowercase_of(l[b].name),
    ) by {
        assert(key_order()(all[a], all[b]));
        assert(key_le(all[a], all[b]));
        crate::sort::lemma_lex_reflexive(all[a].1);
        assert(all[a] == keys[all[a].2 as int]);
        assert(all[b] == keys[all[b].2 as int]);
    }
}

} // verus!
