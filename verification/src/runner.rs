use vstd::prelude::*;

use crate::text::{chars_eq, chars_of, concat_str, split_chars, split_on, string_of, words, Chars};

verus! {

// ---------------------------------------------------------------------------
// Programs looked for on PATH
// ---------------------------------------------------------------------------

/// The terminal emulators looked for, in order of preference.
pub open spec fn terminal_names() -> Seq<Chars> {
    seq![
        "ghostty"@,
        "kitty"@,
        "alacritty"@,
        "wezterm"@,
        "gnome-terminal"@,
        "konsole"@,
        "xfce4-terminal"@,
        "xterm"@,
    ]
}

/// The web browsers looked for, in order of preference.
pub open spec fn browser_names() -> Seq<Chars> {
    seq![
        "zen-browser"@,
        "zen"@,
        "firefox"@,
        "google-chrome"@,
        "brave-browser"@,
        "brave"@,
        "chromium"@,
        "epiphany"@,
        "opera"@,
        "vivaldi"@,
        "librewolf"@,
        "waterfox"@,
    ]
}

/// The models of a list of strings.
pub open spec fn strings(v: Seq<String>) -> Seq<Chars> {
    v.map_values(|s: String| s@)
}

fn strings_of(items: &[&str]) -> (r: Vec<String>)
    ensures
        strings(r@) == items@.map_values(|s: &str| s@),
{
    let mut out: Vec<String> = Vec::new();
    let mut i: usize = 0;
    while i < items.len()
        invariant
            i <= items@.len(),
            strings(out@) == items@.take(i as int).map_values(|s: &str| s@),
        decreases items@.len() - i,
    {
        let ghost before = strings(out@);
        out.push(items[i].to_owned());
        proof {
            assert(strings(out@) =~= before.push(items@[i as int]@));
            assert(items@.take(i + 1).map_values(|s: &str| s@) =~= items@.take(i as int).map_values(|s: &str| s@).push(items@[i as int]@));
        }
        i += 1;
    }
    assert(items@.take(items@.len() as int) =~= items@);
    out
}

/// The terminal emulators looked for on PATH, in order of preference.
pub fn terminal_candidates() -> (r: Vec<String>)
    ensures
        strings(r@) == terminal_names(),
{
    let r = strings_of(
        &[
            "ghostty",
            "kitty",
            "alacritty",
            "wezterm",
            "gnome-terminal",
            "konsole",
            "xfce4-terminal",
            "xterm",
        ],
    );
    assert(strings(r@) =~= terminal_names());
    r
}

/// The web browsers looked for on PATH, in order of preference.
pub fn browser_candidates() -> (r: Vec<String>)
    ensures
        strings(r@) == browser_names(),
{
    let r = strings_of(
        &[
            "zen-browser",
            "zen",
            "firefox",
            "google-chrome",
            "brave-browser",
            "brave",
            "chromium",
            "epiphany",
            "opera",
            "vivaldi",
            "librewolf",
            "waterfox",
        ],
    );
    assert(strings(r@) =~= browser_names());
    r
}

/// The directories of a PATH value, as `split(':')` gives them.
pub fn search_dirs(path_var: &str) -> (r: Vec<String>)
    ensures
        strings(r@) == split_on(path_var@, ':'),
{
    let pieces = split_chars(&chars_of(path_var), ':');
    let mut out: Vec<String> = Vec::new();
    let mut i: usize = 0;
    while i < pieces.len()
        invariant
            i <= pieces@.len() == split_on(path_var@, ':').len(),
            forall|k: int| 0 <= k < pieces@.len() ==> #[trigger] pieces@[k]@ == split_on(path_var@, ':')[k],
            strings(out@) == split_on(path_var@, ':').take(i as int),
        decreases pieces@.len() - i,
    {
        let ghost before = strings(out@);
        out.push(string_of(&pieces[i]));
        proof {
            assert(strings(out@) =~= before.push(pieces@[i as int]@));
            assert(strings(out@) =~= split_on(path_var@, ':').take(i + 1));
        }
        i += 1;
    }
    assert(split_on(path_var@, ':').take(pieces@.len() as int) =~= split_on(path_var@, ':'));
    out
}

/// The candidates that were found, in their order, after the entry `Auto`.
pub open spec fn available_list(candidates: Seq<Chars>, found: Seq<bool>) -> Seq<Chars>
    decreases candidates.len(),
{
    if candidates.len() == 0 {
        seq!["Auto"@]
    } else {
        let rest = available_list(candidates.drop_last(), found.drop_last());
        if found.last() {
            rest.push(candidates.last())
        } else {
            rest
        }
    }
}

/// The list offered in the settings: `Auto`, then each candidate that was found on PATH.
pub fn available_programs(candidates: &Vec<String>, found: &Vec<bool>) -> (r: Vec<String>)
    requires
        found@.len() == candidates@.len(),
    ensures
        strings(r@) == available_list(strings(candidates@), found@),
{
    let mut out: Vec<String> = Vec::new();
    out.push("Auto".to_owned());
    let ghost cs = strings(candidates@);
    let mut i: usize = 0;
    proof {
        assert(strings(out@) =~= seq!["Auto"@]);
        assert(cs.take(0) =~= Seq::<Chars>::empty());
        assert(found@.take(0) =~= Seq::<bool>::empty());
    }
    while i < candidates.len()
        invariant
            i <= candidates@.len() == found@.len(),
            cs == strings(candidates@),
            strings(out@) == available_list(cs.take(i as int), found@.take(i as int)),
        decreases candidates@.len() - i,
    {
        proof {
            assert(cs.take(i + 1).drop_last() =~= cs.take(i as int));
            assert(found@.take(i + 1).drop_last() =~= found@.take(i as int));
        }
        let ghost before = strings(out@);
        if found[i] {
            out.push(candidates[i].clone());
            proof {
                assert(strings(out@) =~= before.push(cs[i as int]));
            }
        }
        i += 1;
    }
    proof {
        assert(cs.take(cs.len() as int) =~= cs);
        assert(found@.take(found@.len() as int) =~= found@);
    }
    out
}

/// The first program of the list that is not `Auto`.
pub open spec fn first_real(list: Seq<Chars>) -> Option<Chars>
    decreases list.len(),
{
    if list.len() == 0 {
        None
    } else if list[0] != "Auto"@ {
        Some(list[0])
    } else {
        first_real(list.drop_first())
    }
}

/// Picks the first available terminal emulator.
pub fn find_terminal(available: &Vec<String>) -> (r: Option<String>)
    ensures
        match r {
            Some(t) => first_real(strings(available@)) == Some(t@),
            None => first_real(strings(available@)) is None,
        },
{
    let auto = chars_of("Auto");
    let ghost ls = strings(available@);
    let mut i: usize = 0;
    proof {
        assert(ls.skip(0) =~= ls);
    }
    while i < available.len()
        invariant
            i <= available@.len(),
            ls == strings(available@),
            auto@ == "Auto"@,
            first_real(ls) == first_real(ls.skip(i as int)),
        decreases available@.len() - i,
    {
        let c = chars_of(available[i].as_str());
        proof {
            assert(ls.skip(i as int)[0] == available@[i as int]@);
            assert(ls.skip(i as int).drop_first() =~= ls.skip(i + 1));
        }
        if !chars_eq(&c, &auto) {
            return Some(available[i].clone());
        }
        i += 1;
    }
    proof {
        assert(ls.skip(i as int) =~= Seq::<Chars>::empty());
    }
    None
}

// ---------------------------------------------------------------------------
// Running commands
// ---------------------------------------------------------------------------

/// What a background run reports, given how the process ended and what it printed:
/// its output and its error output combined (output first); on failure with neither,
/// a line naming the exit status.
pub open spec fn command_outcome(success: bool, stdout: Chars, stderr: Chars, status: Chars) -> Result<
    Chars,
    Chars,
> {
    if success {
        Ok(stdout + stderr)
    } else if stdout.len() == 0 && stderr.len() == 0 {
        Err("Process exited with status: "@ + status)
    } else {
        Err(stdout + stderr)
    }
}

/// Decides what a background command run reports; `status` is the exit status as
/// `ExitStatus` displays it.
pub fn command_result(success: bool, stdout: String, stderr: String, status: &str) -> (r: Result<
    String,
    String,
>)
    ensures
        match r {
            Ok(s) => command_outcome(success, stdout@, stderr@, status@) == Ok::<Chars, Chars>(s@),
            Err(e) => command_outcome(success, stdout@, stderr@, status@) == Err::<Chars, Chars>(e@),
        },
{
    let combined = concat_str(stdout.as_str(), stderr.as_str());
    if success {
        Ok(combined)
    } else if stdout.as_str().is_empty() && stderr.as_str().is_empty() {
        Err(concat_str("Process exited with status: ", status))
    } else {
        Err(combined)
    }
}

/// A terminal emulator to start and its arguments.
#[derive(Debug)]
pub struct TerminalLaunch {
    pub program: String,
    pub args: Vec<String>,
}

/// The shell line run in the terminal: the command, then a prompt that keeps the
/// window open until Enter is pressed.
pub open spec fn terminal_shell_line(command: Chars) -> Chars {
    command + "; echo; echo '--- Process finished. Press Enter to close ---'; read -r _"@
}

/// The arguments that make `terminal` run `shell` through `sh -c`.
pub open spec fn terminal_args(terminal: Chars, shell: Chars) -> Seq<Chars> {
    if terminal == "wezterm"@ {
        seq!["start"@, "--"@, "sh"@, "-c"@, shell]
    } else if terminal == "gnome-terminal"@ {
        seq!["--"@, "sh"@, "-c"@, shell]
    } else {
        seq!["-e"@, "sh"@, "-c"@, shell]
    }
}

/// The message given when no terminal emulator can be found.
pub open spec fn no_terminal_message() -> Chars {
    "No supported terminal emulator (kitty, alacritty, wezterm, gnome-terminal, konsole, xfce4-terminal, xterm) found in PATH."@
}

/// How a command is run in a terminal: in the preferred terminal when there is one,
/// else in the first available one; an error when there is neither.
pub open spec fn terminal_plan(command: Chars, preferred: Option<Chars>, available: Seq<Chars>) -> Result<
    (Chars, Seq<Chars>),
    Chars,
> {
    let term = match preferred {
        Some(p) => Some(p),
        None => first_real(available),
    };
    match term {
        Some(t) => Ok((t, terminal_args(t, terminal_shell_line(command)))),
        None => Err(no_terminal_message()),
    }
}

/// Chooses the terminal emulator and the arguments that run `command` in it.
pub fn terminal_launch(command: &str, preferred: Option<&str>, available: &Vec<String>) -> (r: Result<
    TerminalLaunch,
    String,
>)
    ensures
        match r {
            Ok(l) => terminal_plan(
                command@,
                match preferred {
                    Some(p) => Some(p@),
                    None => None,
                },
                strings(available@),
            ) == Ok::<(Chars, Seq<Chars>), Chars>((l.program@, strings(l.args@))),
            Err(e) => terminal_plan(
                command@,
                match preferred {
                    Some(p) => Some(p@),
                    None => None,
                },
                strings(available@),
            ) == Err::<(Chars, Seq<Chars>), Chars>(e@),
        },
{
    let term = match preferred {
        Some(p) => p.to_owned(),
        None => match find_terminal(available) {
            Some(t) => t,
            None => {
                return Err(
                    "No supported terminal emulator (kitty, alacritty, wezterm, gnome-terminal, konsole, xfce4-terminal, xterm) found in PATH.".to_owned(),
                );
            },
        },
    };
    let shell = concat_str(
        command,
        "; echo; echo '--- Process finished. Press Enter to close ---'; read -r _",
    );
    let tc = chars_of(term.as_str());
    let mut args: Vec<String> = Vec::new();
    if chars_eq(&tc, &chars_of("wezterm")) {
        args.push("start".to_owned());
        args.push("--".to_owned());
    } else if chars_eq(&tc, &chars_of("gnome-terminal")) {
        args.push("--".to_owned());
    } else {
        args.push("-e".to_owned());
    }
    args.push("sh".to_owned());
    args.push("-c".to_owned());
    args.push(shell);
    proof {
        let sh = terminal_shell_line(command@);
        if term@ == "wezterm"@ {
            assert(strings(args@) =~= seq!["start"@, "--"@, "sh"@, "-c"@, sh]);
        } else if term@ == "gnome-terminal"@ {
            assert(strings(args@) =~= seq!["--"@, "sh"@, "-c"@, sh]);
        } else {
            assert(strings(args@) =~= seq!["-e"@, "sh"@, "-c"@, sh]);
        }
    }
    Ok(TerminalLaunch { program: term, args })
}

/// The program and arguments of an application's `Exec` line: its whitespace-separated
/// words.
pub fn command_words(command: &str) -> (r: Vec<String>)
    ensures
        strings(r@) == words(command@),
{
    let ws = crate::text::split_words(&chars_of(command));
    let mut out: Vec<String> = Vec::new();
    let mut i: usize = 0;
    while i < ws.len()
        invariant
            i <= ws@.len() == words(command@).len(),
            forall|k: int| 0 <= k < ws@.len() ==> #[trigger] ws@[k]@ == words(command@)[k],
            strings(out@) == words(command@).take(i as int),
        decreases ws@.len() - i,
    {
        let ghost before = strings(out@);
        out.push(string_of(&ws[i]));
        proof {
            assert(strings(out@) =~= before.push(ws@[i as int]@));
            assert(strings(out@) =~= words(command@).take(i + 1));
        }
        i += 1;
    }
    assert(words(command@).take(ws@.len() as int) =~= words(command@));
    out
}

} // verus!
