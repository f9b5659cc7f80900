use vstd::prelude::*;

use crate::models::{AppEntry, AppEntryView};
use crate::sort::{key_models, sorted_keys, sorted_positions, KeyView, SortKey};
use crate::text::{
    chars_eq, chars_eq_ignore_ascii_case, chars_of, eq_ignore_ascii_case, find_char, first_is,
    concat_str, has_char, lowercase_of, slice_chars, split_chars, split_on, string_of, to_lowercase,
    trim, trim_chars, Chars,
};

verus! {

// ---------------------------------------------------------------------------
// Exec field codes
// ---------------------------------------------------------------------------

/// `s` with every `%` removed together with the character that follows it.
pub open spec fn remove_field_codes(s: Chars) -> Chars
    decreases s.len(),
{
    if s.len() == 0 {
        s
    } else if s[0] == '%' {
        if s.len() == 1 {
            Seq::empty()
        } else {
            remove_field_codes(s.subrange(2, s.len() as int))
        }
    } else {
        seq![s[0]] + remove_field_codes(s.drop_first())
    }
}

/// An `Exec` value without its XDG field codes (`%u`, `%F`, ...), trimmed.
pub open spec fn exec_command(exec: Chars) -> Chars {
    trim(remove_field_codes(exec))
}

/// Strips XDG field codes (%u, %U, %f, %F, %i, %c, %k, etc.) from an Exec value.
pub fn strip_field_codes(exec: &str) -> (r: String)
    ensures
        r@ == exec_command(exec@),
{
    let s = chars_of(exec);
    let v = strip_codes_chars(&s);
    string_of(&trim_chars(&v))
}

fn strip_codes_chars(s: &[char]) -> (r: Vec<char>)
    ensures
        r@ == remove_field_codes(s@),
{
    let mut out: Vec<char> = Vec::new();
    let mut i: usize = 0;
    assert(s@.skip(0) =~= s@);
    while i < s.len()
        invariant
            i <= s@.len(),
            remove_field_codes(s@) == out@ + remove_field_codes(s@.skip(i as int)),
        decreases s@.len() - i,
    {
        let rest = Ghost(s@.skip(i as int));
        if s[i] == '%' {
            if i + 1 == s.len() {
                proof {
                    assert(out@ + Seq::<char>::empty() =~= out@);
                    assert(s@.skip(s@.len() as int) =~= Seq::<char>::empty());
                }
                i += 1;
            } else {
                proof {
                    assert(rest@.subrange(2, rest@.len() as int) =~= s@.skip(i + 2));
                }
                i += 2;
            }
        } else {
            let c = s[i];
            out.push(c);
            proof {
                assert(rest@.drop_first() =~= s@.skip(i + 1));
            }
            i += 1;
        }
    }
    proof {
        assert(s@.skip(i as int) =~= Seq::<char>::empty());
        assert(out@ + Seq::<char>::empty() =~= out@);
    }
    out
}

// ---------------------------------------------------------------------------
// The [Desktop Entry] section
// ---------------------------------------------------------------------------

/// What a scan of a `.desktop` file has gathered so far.
pub struct DesktopScan {
    pub entry_type: Option<Chars>,
    pub name: Option<Chars>,
    pub exec_line: Option<Chars>,
    pub icon: Option<Chars>,
    pub comment: Option<Chars>,
    pub no_display: bool,
    pub hidden: bool,
    /// The scan is inside the `[Desktop Entry]` section.
    pub in_entry: bool,
    /// The scan has left the section for another one and reads nothing more.
    pub done: bool,
}

/// The state before the first line.
pub open spec fn scan_start() -> DesktopScan {
    DesktopScan {
        entry_type: None,
        name: None,
        exec_line: None,
        icon: None,
        comment: None,
        no_display: false,
        hidden: false,
        in_entry: false,
        done: false,
    }
}

/// The text before the first `=` of `line` and the text after it, if `line` has one.
pub open spec fn split_once_eq(line: Chars) -> Option<(Chars, Chars)> {
    if has_char(line, '=') {
        let k = choose|k: int| 0 <= k < line.len() && line[k] == '=' && forall|j: int|
            0 <= j < k ==> line[j] != '=';
        Some((line.take(k), line.skip(k + 1)))
    } else {
        None
    }
}

/// How one `key=value` line of the section changes the scan.
pub open spec fn scan_key(st: DesktopScan, key: Chars, value: Chars) -> DesktopScan {
    if key == "Type"@ {
        DesktopScan { entry_type: Some(value), ..st }
    } else if key == "Name"@ {
        DesktopScan { name: Some(value), ..st }
    } else if key == "Exec"@ {
        DesktopScan { exec_line: Some(exec_command(value)), ..st }
    } else if key == "Icon"@ {
        DesktopScan { icon: Some(value), ..st }
    } else if key == "Comment"@ {
        DesktopScan { comment: Some(value), ..st }
    } else if key == "NoDisplay"@ {
        DesktopScan { no_display: eq_ignore_ascii_case(value, "true"@), ..st }
    } else if key == "Hidden"@ {
        DesktopScan { hidden: eq_ignore_ascii_case(value, "true"@), ..st }
    } else {
        st
    }
}

/// How one line of the file changes the scan. Lines are trimmed first; keys and
/// values are trimmed around the first `=`. Localized keys such as `Name[es]` are
/// other keys and change nothing.
pub open spec fn scan_line(st: DesktopScan, raw: Chars) -> DesktopScan {
    let line = trim(raw);
    if st.done {
        st
    } else if line == "[Desktop Entry]"@ {
        DesktopScan { in_entry: true, ..st }
    } else if line.len() > 0 && line[0] == '[' && st.in_entry {
        DesktopScan { done: true, ..st }
    } else if !st.in_entry {
        st
    } else {
        match split_once_eq(line) {
            Some((k, v)) => scan_key(st, trim(k), trim(v)),
            None => st,
        }
    }
}

/// The scan after reading `lines` in order.
pub open spec fn scan_lines(lines: Seq<Chars>) -> DesktopScan
    decreases lines.len(),
{
    if lines.len() == 0 {
        scan_start()
    } else {
        scan_line(scan_lines(lines.drop_last()), lines.last())
    }
}

/// The application a `.desktop` file describes: the `[Desktop Entry]` section must
/// have `Type=Application`, must not be `NoDisplay` or `Hidden`, and must name both
/// `Name` and `Exec`. The file is read line by line as split at `\n`; a trimmed line
/// that is empty changes nothing, so a final newline does not matter.
pub open spec fn desktop_entry(content: Chars) -> Option<AppEntryView> {
    let st = scan_lines(split_on(content, '\n'));
    if st.entry_type != Some("Application"@) || st.no_display || st.hidden {
        None
    } else {
        match (st.name, st.exec_line) {
            (Some(name), Some(cmd)) => Some(
                AppEntryView {
                    name: name,
                    command: cmd,
                    icon: st.icon,
                    icon_path: None,
                    description: st.comment,
                },
            ),
            _ => None,
        }
    }
}

/// The exec form of [`DesktopScan`].
struct ScanState {
    entry_type: Option<Vec<char>>,
    name: Option<Vec<char>>,
    exec_line: Option<Vec<char>>,
    icon: Option<Vec<char>>,
    comment: Option<Vec<char>>,
    no_display: bool,
    hidden: bool,
    in_entry: bool,
    done: bool,
}

spec fn opt_vec(o: Option<Vec<char>>) -> Option<Chars> {
    match o {
        Some(v) => Some(v@),
        None => None,
    }
}

impl ScanState {
    spec fn model(&self) -> DesktopScan {
        DesktopScan {
            entry_type: opt_vec(self.entry_type),
            name: opt_vec(self.name),
            exec_line: opt_vec(self.exec_line),
            icon: opt_vec(self.icon),
            comment: opt_vec(self.comment),
            no_display: self.no_display,
            hidden: self.hidden,
            in_entry: self.in_entry,
            done: self.done,
        }
    }
}

fn opt_string(o: Option<Vec<char>>) -> (r: Option<String>)
    ensures
        crate::models::opt_chars(r) == opt_vec(o),
{
    match o {
        Some(v) => Some(string_of(&v)),
        None => None,
    }
}

fn apply_key(st: &mut ScanState, key: Vec<char>, value: Vec<char>)
    ensures
        final(st).model() == scan_key(old(st).model(), key@, value@),
{
    if chars_eq(&key, &chars_of("Type")) {
        st.entry_type = Some(value);
    } else if chars_eq(&key, &chars_of("Name")) {
        st.name = Some(value);
    } else if chars_eq(&key, &chars_of("Exec")) {
        let v = strip_codes_chars(&value);
        st.exec_line = Some(trim_chars(&v));
    } else if chars_eq(&key, &chars_of("Icon")) {
        st.icon = Some(value);
    } else if chars_eq(&key, &chars_of("Comment")) {
        st.comment = Some(value);
    } else if chars_eq(&key, &chars_of("NoDisplay")) {
        st.no_display = chars_eq_ignore_ascii_case(&value, &chars_of("true"));
    } else if chars_eq(&key, &chars_of("Hidden")) {
        st.hidden = chars_eq_ignore_ascii_case(&value, &chars_of("true"));
    }
}

fn apply_line(st: &mut ScanState, raw: &[char])
    ensures
        final(st).model() == scan_line(old(st).model(), raw@),
{
    if st.done {
        return;
    }
    let line = trim_chars(raw);
    if chars_eq(&line, &chars_of("[Desktop Entry]")) {
        st.in_entry = true;
    } else if first_is(&line, '[') && st.in_entry {
        st.done = true;
    } else if !st.in_entry {
    } else {
        match find_char(&line, '=') {
            Some(k) => {
                let n = line.len();
                assert(k < n);
                let key = trim_chars(&slice_chars(&line, 0, k));
                let value = trim_chars(&slice_chars(&line, k + 1, n));
                proof {
                    let l = line@;
                    let kk = choose|k: int| 0 <= k < l.len() && l[k] == '=' && forall|j: int|
                        0 <= j < k ==> l[j] != '=';
                    assert(has_char(l, '='));
                    if kk < k {
                    } else if kk > k {
                        assert(l[k as int] == '=');
                    }
                    assert(kk == k);
                    assert(l.take(k as int) =~= l.subrange(0, k as int));
                    assert(l.skip(k + 1) =~= l.subrange(k + 1, l.len() as int));
                }
                apply_key(st, key, value);
            },
            None => {},
        }
    }
}

/// Parses the text of a `.desktop` file into an [`AppEntry`].
/// Returns `None` if the entry should be hidden or isn't an application.
pub fn parse_desktop_entry(content: &str) -> (r: Option<AppEntry>)
    ensures
        match r {
            Some(e) => desktop_entry(content@) == Some(e@),
            None => desktop_entry(content@) is None,
        },
{
    let text = chars_of(content);
    let lines = split_chars(&text, '\n');
    let ghost ls = split_on(content@, '\n');
    let mut st = ScanState {
        entry_type: None,
        name: None,
        exec_line: None,
        icon: None,
        comment: None,
        no_display: false,
        hidden: false,
        in_entry: false,
        done: false,
    };
    let mut i: usize = 0;
    while i < lines.len()
        invariant
            i <= lines@.len() == ls.len(),
            forall|k: int| 0 <= k < lines@.len() ==> #[trigger] lines@[k]@ == ls[k],
            st.model() == scan_lines(ls.take(i as int)),
        decreases lines@.len() - i,
    {
        proof {
            assert(ls.take(i + 1).drop_last() =~= ls.take(i as int));
        }
        apply_line(&mut st, &lines[i]);
        i += 1;
    }
    assert(ls.take(ls.len() as int) =~= ls);
    let ty_ok = match &st.entry_type {
        Some(t) => chars_eq(t, &chars_of("Application")),
        None => false,
    };
    if !ty_ok || st.no_display || st.hidden {
        return None;
    }
    match (st.name, st.exec_line) {
        (Some(name), Some(cmd)) => Some(
            AppEntry {
                name: string_of(&name),
                command: string_of(&cmd),
                icon: opt_string(st.icon),
                icon_path: None,
                description: opt_string(st.comment),
            },
        ),
        _ => None,
    }
}

// ---------------------------------------------------------------------------
// Where `.desktop` files are found
// ---------------------------------------------------------------------------

/// The data directories searched when `XDG_DATA_DIRS` is not set.
pub open spec fn default_data_dirs() -> Chars {
    "/usr/local/share:/usr/share"@
}

/// The directories that hold `.desktop` files, user-local first: the user's
/// `~/.local/share/applications` when the home directory is known, then the
/// `applications` directory of every entry of the data directory list, in its order.
pub open spec fn application_dir_list(home: Option<Chars>, data_dirs: Option<Chars>) -> Seq<Chars> {
    let dirs = match data_dirs {
        Some(d) => d,
        None => default_data_dirs(),
    };
    let system = split_on(dirs, ':').map_values(|d: Chars| d + "/applications"@);
    match home {
        Some(h) => seq![h + "/.local/share/applications"@] + system,
        None => system,
    }
}

/// The directories containing `.desktop` files, ordered by priority (user-local first),
/// given the values of `HOME` and `XDG_DATA_DIRS` where they are set.
pub fn application_dirs(home: Option<&str>, data_dirs: Option<&str>) -> (r: Vec<String>)
    ensures
        r@.map_values(|s: String| s@) == application_dir_list(
            match home {
                Some(h) => Some(h@),
                None => None,
            },
            match data_dirs {
                Some(d) => Some(d@),
                None => None,
            },
        ),
{
    let mut out: Vec<String> = Vec::new();
    match home {
        Some(h) => {
            out.push(concat_str(h, "/.local/share/applications"));
        },
        None => {},
    }
    let ghost start = out@.map_values(|s: String| s@);
    let dirs = match data_dirs {
        Some(d) => chars_of(d),
        None => chars_of("/usr/local/share:/usr/share"),
    };
    let pieces = split_chars(&dirs, ':');
    let ghost parts = split_on(dirs@, ':');
    let mut i: usize = 0;
    while i < pieces.len()
        invariant
            i <= pieces@.len() == parts.len(),
            forall|k: int| 0 <= k < pieces@.len() ==> #[trigger] pieces@[k]@ == parts[k],
            out@.map_values(|s: String| s@) == start + parts.take(i as int).map_values(
                |d: Chars| d + "/applications"@,
            ),
        decreases pieces@.len() - i,
    {
        let dir = string_of(&pieces[i]);
        let ghost before = out@.map_values(|s: String| s@);
        out.push(concat_str(dir.as_str(), "/applications"));
        proof {
            assert(out@.map_values(|s: String| s@) =~= before.push(parts[i as int] + "/applications"@));
            assert(parts.take(i + 1).map_values(|d: Chars| d + "/applications"@) =~= parts.take(i as int).map_values(|d: Chars| d + "/applications"@).push(parts[i as int] + "/applications"@));
        }
        i += 1;
    }
    proof {
        assert(parts.take(parts.len() as int) =~= parts);
        let system = parts.map_values(|d: Chars| d + "/applications"@);
        match home {
            Some(h) => {
                assert(start =~= seq![h@ + "/.local/share/applications"@]);
            },
            None => {
                assert(start =~= Seq::<Chars>::empty());
                assert(start + system =~= system);
            },
        }
    }
    out
}

// ---------------------------------------------------------------------------
// The application catalog
// ---------------------------------------------------------------------------

/// Entry `i` has a name that an earlier entry already has.
pub open spec fn name_seen_before(es: Seq<AppEntryView>, i: int) -> bool {
    exists|j: int| 0 <= j < i && es[j].name == es[i].name
}

/// The entries whose name no earlier entry has: the first entry of each name wins.
pub open spec fn first_of_each_name(es: Seq<AppEntryView>) -> Seq<AppEntryView>
    decreases es.len(),
{
    if es.len() == 0 {
        Seq::empty()
    } else {
        let rest = first_of_each_name(es.drop_last());
        if name_seen_before(es, es.len() - 1) {
            rest
        } else {
            rest.push(es.last())
        }
    }
}

/// The keys that order entries by lowercased name, ties kept in their order.
pub open spec fn name_order_keys(es: Seq<AppEntryView>) -> Seq<KeyView> {
    Seq::new(es.len(), |i: int| (0u32, lowercase_of(es[i].name), i as usize))
}

/// Entries ordered by their lowercased names; entries whose lowercased names are
/// equal keep their order.
pub open spec fn by_lowercase_name(es: Seq<AppEntryView>) -> Seq<AppEntryView> {
    sorted_keys(name_order_keys(es)).map_values(|k: KeyView| es[k.2 as int])
}

/// The application list built from the entries found in the directories, read in
/// priority order: one entry per name, the first one found, ordered by lowercased name.
pub open spec fn app_catalog(found: Seq<AppEntryView>) -> Seq<AppEntryView> {
    by_lowercase_name(first_of_each_name(found))
}

/// Keeps the first entry of each name (user-local files override system ones).
pub fn dedup_by_name(found: &Vec<AppEntry>) -> (r: Vec<AppEntry>)
    ensures
        r@.map_values(|e: AppEntry| e@) == first_of_each_name(found@.map_values(|e: AppEntry| e@)),
{
    let ghost es = found@.map_values(|e: AppEntry| e@);
    let mut out: Vec<AppEntry> = Vec::new();
    let mut i: usize = 0;
    while i < found.len()
        invariant
            i <= found@.len(),
            es == found@.map_values(|e: AppEntry| e@),
            out@.map_values(|e: AppEntry| e@) == first_of_each_name(es.take(i as int)),
        decreases found@.len() - i,
    {
        let ghost pre = es.take(i + 1);
        proof {
            assert(pre.drop_last() =~= es.take(i as int));
        }
        let mut seen = false;
        let mut j: usize = 0;
        while j < i
            invariant
                j <= i < found@.len(),
                es == found@.map_values(|e: AppEntry| e@),
                pre == es.take(i + 1),
                seen == exists|q: int| 0 <= q < j && pre[q].name == pre[i as int].name,
            decreases i - j,
        {
            if found[j].name == found[i].name {
                seen = true;
            }
            proof {
                assert(pre[j as int] == found@[j as int]@);
                assert(pre[i as int] == found@[i as int]@);
                if seen && !(exists|q: int| 0 <= q < j && pre[q].name == pre[i as int].name) {
                    assert(pre[j as int].name == pre[i as int].name);
                }
            }
            j += 1;
        }
        let ghost before = out@.map_values(|e: AppEntry| e@);
        if !seen {
            out.push(found[i].duplicate());
            proof {
                assert(out@.map_values(|e: AppEntry| e@) =~= before.push(pre.last()));
            }
        }
        i += 1;
    }
    proof {
        assert(es.take(found@.len() as int) =~= es);
    }
    out
}

/// Orders entries by lowercased name, keeping the order of entries whose
/// lowercased names are equal.
pub fn sort_by_lowercase_name(entries: &Vec<AppEntry>) -> (r: Vec<AppEntry>)
    ensures
        r@.map_values(|e: AppEntry| e@) == by_lowercase_name(entries@.map_values(|e: AppEntry| e@)),
{
    let ghost es = entries@.map_values(|e: AppEntry| e@);
    let mut keys: Vec<SortKey> = Vec::new();
    let mut i: usize = 0;
    while i < entries.len()
        invariant
            i <= entries@.len(),
            es == entries@.map_values(|e: AppEntry| e@),
            keys@.len() == i,
            forall|k: int| 0 <= k < i ==> (#[trigger] keys@[k]).model() == name_order_keys(es)[k],
            forall|k: int| 0 <= k < i ==> (#[trigger] keys@[k]).index < entries@.len(),
        decreases entries@.len() - i,
    {
        let lower = to_lowercase(entries[i].name.as_str());
        keys.push(SortKey { group: 0, text: chars_of(lower.as_str()), index: i });
        i += 1;
    }
    proof {
        assert(key_models(keys@) =~= name_order_keys(es));
    }
    let pos = sorted_positions(keys, entries.len());
    let mut out: Vec<AppEntry> = Vec::new();
    let mut k: usize = 0;
    while k < pos.len()
        invariant
            k <= pos@.len(),
            es == entries@.map_values(|e: AppEntry| e@),
            forall|j: int| 0 <= j < pos@.len() ==> #[trigger] pos@[j] < entries@.len(),
            forall|j: int| 0 <= j < pos@.len() ==> #[trigger] pos@[j] == sorted_keys(name_order_keys(es))[j].2,
            out@.len() == k,
            forall|j: int| 0 <= j < k ==> (#[trigger] out@[j])@ == es[pos@[j] as int],
        decreases pos@.len() - k,
    {
        out.push(entries[pos[k]].duplicate());
        k += 1;
    }
    proof {
        assert(pos@.len() == name_order_keys(es).len());
        crate::sort::lemma_sorted_keys_len(name_order_keys(es));
        assert(out@.map_values(|e: AppEntry| e@) =~= by_lowercase_name(es));
    }
    out
}

/// Builds the application list from the entries parsed from the directories, read
/// in priority order: deduplicated by name (first wins) and sorted by lowercased name.
pub fn build_catalog(found: &Vec<AppEntry>) -> (r: Vec<AppEntry>)
    ensures
        r@.map_values(|e: AppEntry| e@) == app_catalog(found@.map_values(|e: AppEntry| e@)),
{
    let unique = dedup_by_name(found);
    sort_by_lowercase_name(&unique)
}

} // verus!
