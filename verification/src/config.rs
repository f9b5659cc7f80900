use vstd::prelude::*;

use crate::models::opt_chars;
use crate::favorites::{copy_history, copy_strings, history_view};
use crate::runner::strings;
use crate::text::{chars_eq, chars_of, Chars};

verus! {

/// The settings kept in `config.toml`, but for the window opacity, which is a float
/// and is kept by the program around this library.
#[derive(Debug, Clone)]
pub struct Config {
    pub terminal: Option<String>,
    pub width: Option<u32>,
    pub height: Option<u32>,
    pub theme: Option<String>,
    pub language: Option<String>,
    pub browser: Option<String>,
    /// The `Exec` commands of the favourite applications.
    pub favorites: Vec<String>,
    /// How many times each application was launched, by `Exec` command.
    pub history: Vec<(String, u32)>,
}

/// The model of a [`Config`].
pub struct ConfigView {
    pub terminal: Option<Chars>,
    pub width: Option<u32>,
    pub height: Option<u32>,
    pub theme: Option<Chars>,
    pub language: Option<Chars>,
    pub browser: Option<Chars>,
    pub favorites: Seq<Chars>,
    pub history: Seq<(Chars, u32)>,
}

impl View for Config {
    type V = ConfigView;

    open spec fn view(&self) -> ConfigView {
        ConfigView {
            terminal: opt_chars(self.terminal),
            width: self.width,
            height: self.height,
            theme: opt_chars(self.theme),
            language: opt_chars(self.language),
            browser: opt_chars(self.browser),
            favorites: strings(self.favorites@),
            history: history_view(self.history@),
        }
    }
}

/// The settings a new configuration file gets.
pub open spec fn default_config() -> ConfigView {
    ConfigView {
        terminal: None,
        width: Some(800),
        height: Some(500),
        theme: Some("TokyoNight"@),
        language: Some("EN"@),
        browser: None,
        favorites: Seq::empty(),
        history: Seq::empty(),
    }
}

impl Default for Config {
    fn default() -> (r: Self)
        ensures
            r@ == default_config(),
    {
        let r = Config {
            terminal: None,
            width: Some(800),
            height: Some(500),
            theme: Some("TokyoNight".to_owned()),
            language: Some("EN".to_owned()),
            browser: None,
            favorites: Vec::new(),
            history: Vec::new(),
        };
        assert(strings(r.favorites@) =~= Seq::empty());
        assert(history_view(r.history@) =~= Seq::empty());
        r
    }
}

impl Config {
    /// Copies a configuration.
    pub fn duplicate(&self) -> (r: Config)
        ensures
            r@ == self@,
    {
        Config {
            terminal: crate::models::clone_opt(&self.terminal),
            width: self.width,
            height: self.height,
            theme: crate::models::clone_opt(&self.theme),
            language: crate::models::clone_opt(&self.language),
            browser: crate::models::clone_opt(&self.browser),
            favorites: copy_strings(&self.favorites),
            history: copy_history(&self.history),
        }
    }
}

// ---------------------------------------------------------------------------
// Cycling through a list of choices
// ---------------------------------------------------------------------------

/// The first index at which `x` occurs in `list`.
pub open spec fn position_of(list: Seq<Chars>, x: Chars) -> Option<int>
    decreases list.len(),
{
    if list.len() == 0 {
        None
    } else if list[0] == x {
        Some(0)
    } else {
        match position_of(list.drop_first(), x) {
            Some(i) => Some(i + 1),
            None => None,
        }
    }
}

pub proof fn lemma_position_of(list: Seq<Chars>, x: Chars)
    ensures
        match position_of(list, x) {
            Some(i) => 0 <= i < list.len() && list[i] == x && forall|j: int|
                0 <= j < i ==> list[j] != x,
            None => !list.contains(x),
        },
    decreases list.len(),
{
    if list.len() > 0 && list[0] != x {
        lemma_position_of(list.drop_first(), x);
        match position_of(list.drop_first(), x) {
            Some(i) => {
                assert forall|j: int| 0 <= j < i + 1 implies list[j] != x by {
                    if j > 0 {
                        assert(list[j] == list.drop_first()[j - 1]);
                    }
                }
            },
            None => {
                assert forall|j: int| 0 <= j < list.len() implies list[j] != x by {
                    if j > 0 {
                        assert(list[j] == list.drop_first()[j - 1]);
                    }
                }
            },
        }
    }
}

/// The index after (`direction > 0`) or before `i` in a ring of `n` places.
pub open spec fn ring_step(i: int, n: int, direction: i32) -> int {
    if direction > 0 {
        (i + 1) % n
    } else {
        (i + n - 1) % n
    }
}

/// A step round the ring stays on it and moves by one place.
pub proof fn lemma_ring_step(i: int, n: int, direction: i32)
    requires
        0 <= i < n,
    ensures
        ring_step(i, n, direction) == (if direction > 0 {
            if i + 1 == n {
                0
            } else {
                i + 1
            }
        } else if i == 0 {
            n - 1
        } else {
            i - 1
        }),
{
    if direction > 0 {
        if i + 1 == n {
            vstd::arithmetic::div_mod::lemma_mod_self_0(n);
        } else {
            vstd::arithmetic::div_mod::lemma_small_mod((i + 1) as nat, n as nat);
        }
    } else if i == 0 {
        vstd::arithmetic::div_mod::lemma_small_mod((n - 1) as nat, n as nat);
    } else {
        vstd::arithmetic::div_mod::lemma_mod_add_multiples_vanish(i - 1, n);
        vstd::arithmetic::div_mod::lemma_small_mod((i - 1) as nat, n as nat);
    }
}

/// Finds the first index of `x` in `list`.
pub fn find_position(list: &Vec<String>, x: &Vec<char>) -> (r: Option<usize>)
    ensures
        match r {
            Some(i) => position_of(strings(list@), x@) == Some(i as int),
            None => position_of(strings(list@), x@) is None,
        },
{
    let ghost ls = strings(list@);
    proof {
        lemma_position_of(ls, x@);
    }
    let mut i: usize = 0;
    while i < list.len()
        invariant
            i <= list@.len(),
            ls == strings(list@),
            forall|j: int| 0 <= j < i ==> ls[j] != x@,
            match position_of(ls, x@) {
                Some(p) => 0 <= p < ls.len() && ls[p] == x@ && forall|j: int|
                    0 <= j < p ==> ls[j] != x@,
                None => !ls.contains(x@),
            },
        decreases list@.len() - i,
    {
        let c = chars_of(list[i].as_str());
        if chars_eq(&c, x) {
            proof {
                match position_of(ls, x@) {
                    Some(p) => {
                        if p < i {
                        } else if p > i {
                            assert(ls[i as int] == x@);
                        }
                    },
                    None => {
                        assert(ls[i as int] == x@);
                    },
                }
            }
            return Some(i);
        }
        i += 1;
    }
    proof {
        match position_of(ls, x@) {
            Some(p) => {
                assert(ls[p] != x@);
            },
            None => {},
        }
    }
    None
}

/// The themes the settings cycle through, in order.
pub open spec fn theme_names() -> Seq<Chars> {
    seq![
        "TokyoNight"@,
        "TokyoNightStorm"@,
        "TokyoNightLight"@,
        "Dark"@,
        "Light"@,
        "Dracula"@,
        "Nord"@,
        "SolarizedLight"@,
        "SolarizedDark"@,
        "GruvboxLight"@,
        "GruvboxDark"@,
        "CatppuccinLatte"@,
        "CatppuccinFrappe"@,
        "CatppuccinMacchiato"@,
        "CatppuccinMocha"@,
        "KanagawaWave"@,
        "KanagawaDragon"@,
        "KanagawaLotus"@,
        "Moonfly"@,
        "Nightfly"@,
        "Oxocarbon"@,
        "Ferra"@,
    ]
}

/// The themes the settings cycle through, in order.
pub fn themes() -> (r: Vec<String>)
    ensures
        strings(r@) == theme_names(),
{
    let names: [&str; 22] = [
        "TokyoNight",
        "TokyoNightStorm",
        "TokyoNightLight",
        "Dark",
        "Light",
        "Dracula",
        "Nord",
        "SolarizedLight",
        "SolarizedDark",
        "GruvboxLight",
        "GruvboxDark",
        "CatppuccinLatte",
        "CatppuccinFrappe",
        "CatppuccinMacchiato",
        "CatppuccinMocha",
        "KanagawaWave",
        "KanagawaDragon",
        "KanagawaLotus",
        "Moonfly",
        "Nightfly",
        "Oxocarbon",
        "Ferra",
    ];
    let mut out: Vec<String> = Vec::new();
    let mut i: usize = 0;
    while i < 22
        invariant
            i <= 22,
            names@ == seq![
                "TokyoNight",
                "TokyoNightStorm",
                "TokyoNightLight",
                "Dark",
                "Light",
                "Dracula",
                "Nord",
                "SolarizedLight",
                "SolarizedDark",
                "GruvboxLight",
                "GruvboxDark",
                "CatppuccinLatte",
                "CatppuccinFrappe",
                "CatppuccinMacchiato",
                "CatppuccinMocha",
                "KanagawaWave",
                "KanagawaDragon",
                "KanagawaLotus",
                "Moonfly",
                "Nightfly",
                "Oxocarbon",
                "Ferra",
            ],
            strings(out@) == theme_names().take(i as int),
        decreases 22 - i,
    {
        let ghost before = strings(out@);
        out.push(names[i].to_owned());
        proof {
            assert(strings(out@) =~= before.push(names@[i as int]@));
            assert(theme_names().take(i + 1) =~= theme_names().take(i as int).push(theme_names()[i as int]));
        }
        i += 1;
    }
    assert(theme_names().take(22) =~= theme_names());
    out
}

/// The theme chosen from `current` in `direction`: the next (`direction > 0`) or previous
/// one in `theme_names`, going round; an unset theme counts as `TokyoNight`, an unknown
/// one as the first.
pub open spec fn next_theme(current: Option<Chars>, direction: i32) -> Chars {
    let cur = match current {
        Some(t) => t,
        None => "TokyoNight"@,
    };
    let i = match position_of(theme_names(), cur) {
        Some(i) => i,
        None => 0,
    };
    theme_names()[ring_step(i, 22, direction)]
}

/// Moves the theme setting one step through the theme list.
pub fn cycle_theme(config: &mut Config, direction: i32)
    ensures
        final(config)@ == (ConfigView {
            theme: Some(next_theme(old(config)@.theme, direction)),
            ..old(config)@
        }),
{
    let list = themes();
    let cur = match &config.theme {
        Some(t) => chars_of(t.as_str()),
        None => chars_of("TokyoNight"),
    };
    proof {
        lemma_position_of(theme_names(), cur@);
    }
    let idx = match find_position(&list, &cur) {
        Some(i) => i,
        None => 0,
    };
    assert(idx < 22);
    let new_idx = if direction > 0 {
        (idx + 1) % 22
    } else {
        (idx + 22 - 1) % 22
    };
    config.theme = Some(list[new_idx].clone());
}

/// The list a choice cycles through: the available entries, with the current one
/// added at the end when it is missing.
pub open spec fn choice_ring(available: Seq<Chars>, current: Chars) -> Seq<Chars> {
    if available.contains(current) {
        available
    } else {
        available.push(current)
    }
}

/// The choice one step from `current` in `direction` among `available`; an unset
/// choice counts as `Auto`, and landing on `Auto` unsets it.
pub open spec fn next_choice(available: Seq<Chars>, current: Option<Chars>, direction: i32) -> Option<Chars> {
    let cur = match current {
        Some(c) => c,
        None => "Auto"@,
    };
    let ring = choice_ring(available, cur);
    let i = match position_of(ring, cur) {
        Some(i) => i,
        None => 0,
    };
    let next = ring[ring_step(i, ring.len() as int, direction)];
    if next == "Auto"@ {
        None
    } else {
        Some(next)
    }
}

fn step_choice(available: &Vec<String>, current: &Option<String>, direction: i32) -> (r: Option<String>)
    ensures
        opt_chars(r) == next_choice(strings(available@), opt_chars(*current), direction),
{
    let mut list: Vec<String> = Vec::new();
    let mut i: usize = 0;
    while i < available.len()
        invariant
            i <= available@.len(),
            strings(list@) == strings(available@).take(i as int),
        decreases available@.len() - i,
    {
        let ghost before = strings(list@);
        list.push(available[i].clone());
        proof {
            assert(strings(list@) =~= before.push(available@[i as int]@));
            assert(strings(list@) =~= strings(available@).take(i + 1));
        }
        i += 1;
    }
    assert(strings(available@).take(available@.len() as int) =~= strings(available@));
    let cur_s: String = match current {
        Some(c) => c.clone(),
        None => "Auto".to_owned(),
    };
    let cur = chars_of(cur_s.as_str());
    let ghost avail = strings(available@);
    proof {
        lemma_position_of(avail, cur@);
    }
    if find_position(&list, &cur).is_none() {
        let ghost before = strings(list@);
        list.push(cur_s);
        proof {
            assert(strings(list@) =~= before.push(cur@));
        }
    }
    let ghost ring = choice_ring(avail, cur@);
    assert(strings(list@) == ring);
    proof {
        lemma_position_of(ring, cur@);
        if !avail.contains(cur@) {
            assert(ring[ring.len() - 1] == cur@);
        }
    }
    let n = list.len();
    let idx = match find_position(&list, &cur) {
        Some(i) => i,
        None => 0,
    };
    assert(idx < n);
    let new_idx = if direction > 0 {
        if idx + 1 == n {
            0
        } else {
            idx + 1
        }
    } else if idx == 0 {
        n - 1
    } else {
        idx - 1
    };
    proof {
        lemma_ring_step(idx as int, n as int, direction);
    }
    let next = chars_of(list[new_idx].as_str());
    if chars_eq(&next, &chars_of("Auto")) {
        None
    } else {
        Some(list[new_idx].clone())
    }
}

/// Moves the preferred terminal one step through the available terminals.
pub fn cycle_terminal(config: &mut Config, direction: i32, available: &Vec<String>)
    ensures
        final(config)@ == (ConfigView {
            terminal: next_choice(strings(available@), old(config)@.terminal, direction),
            ..old(config)@
        }),
{
    let t = step_choice(available, &config.terminal, direction);
    config.terminal = t;
}

/// Moves the preferred browser one step through the available browsers.
pub fn cycle_browser(config: &mut Config, direction: i32, available: &Vec<String>)
    ensures
        final(config)@ == (ConfigView {
            browser: next_choice(strings(available@), old(config)@.browser, direction),
            ..old(config)@
        }),
{
    let b = step_choice(available, &config.browser, direction);
    config.browser = b;
}

// ---------------------------------------------------------------------------
// Window size and language
// ---------------------------------------------------------------------------

/// `value` minus `step` (stopping at 0), at least `low`.
pub open spec fn size_down(value: u32, step: u32, low: u32) -> u32 {
    let v = if value >= step {
        (value - step) as u32
    } else {
        0u32
    };
    if v < low {
        low
    } else {
        v
    }
}

/// `value` plus `step`, at most `high`.
pub open spec fn size_up(value: u32, step: u32, high: u32) -> u32 {
    if value + step > high {
        high
    } else {
        (value + step) as u32
    }
}

/// Steps the window width down by 50 px (at least 400) or up by 50 px (at most 1920).
pub fn adjust_width(config: &mut Config, grow: bool)
    ensures
        final(config)@ == (ConfigView {
            width: Some(
                if grow {
                    size_up(old(config)@.width.unwrap_or(800), 50, 1920)
                } else {
                    size_down(old(config)@.width.unwrap_or(800), 50, 400)
                },
            ),
            ..old(config)@
        }),
{
    let w = match config.width {
        Some(w) => w,
        None => 800,
    };
    let v = if grow {
        let s = w.saturating_add(50);
        if s > 1920 {
            1920
        } else {
            s
        }
    } else {
        let s = w.saturating_sub(50);
        if s < 400 {
            400
        } else {
            s
        }
    };
    config.width = Some(v);
}

/// Steps the window height down by 50 px (at least 300) or up by 50 px (at most 1080).
pub fn adjust_height(config: &mut Config, grow: bool)
    ensures
        final(config)@ == (ConfigView {
            height: Some(
                if grow {
                    size_up(old(config)@.height.unwrap_or(500), 50, 1080)
                } else {
                    size_down(old(config)@.height.unwrap_or(500), 50, 300)
                },
            ),
            ..old(config)@
        }),
{
    let h = match config.height {
        Some(h) => h,
        None => 500,
    };
    let v = if grow {
        let s = h.saturating_add(50);
        if s > 1080 {
            1080
        } else {
            s
        }
    } else {
        let s = h.saturating_sub(50);
        if s < 300 {
            300
        } else {
            s
        }
    };
    config.height = Some(v);
}

/// The language after a toggle: `ES` when it was `EN` (or unset), else `EN`.
pub open spec fn toggled_language(current: Option<Chars>) -> Chars {
    let cur = match current {
        Some(l) => l,
        None => "EN"@,
    };
    if cur == "EN"@ {
        "ES"@
    } else {
        "EN"@
    }
}

/// Switches the interface language between English and Spanish.
pub fn toggle_language(config: &mut Config)
    ensures
        final(config)@ == (ConfigView {
            language: Some(toggled_language(old(config)@.language)),
            ..old(config)@
        }),
{
    let cur = match &config.language {
        Some(l) => chars_of(l.as_str()),
        None => chars_of("EN"),
    };
    if chars_eq(&cur, &chars_of("EN")) {
        config.language = Some("ES".to_owned());
    } else {
        config.language = Some("EN".to_owned());
    }
}

} // verus!
