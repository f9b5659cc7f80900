use vstd::prelude::*;

use crate::models::{FileEntry, FileEntryView};
use crate::sort::{key_models, sorted_keys, sorted_positions, KeyView, SortKey};
use crate::text::{
    chars_of, concat_str, has_char, last_is, lowercase_of, rfind_char, slice_chars, starts_with,
    string_of, to_lowercase, Chars,
};

verus! {

// ---------------------------------------------------------------------------
// Path queries
// ---------------------------------------------------------------------------

/// A query that starts with `/` or `~` browses the file system.
pub open spec fn is_path_query(q: Chars) -> bool {
    q.len() > 0 && (q[0] == '/' || q[0] == '~')
}

/// The query with a leading `~` replaced by the home directory.
pub open spec fn expand_home(q: Chars, home: Chars) -> Chars {
    if q.len() > 0 && q[0] == '~' {
        home + q.drop_first()
    } else {
        q
    }
}

/// The index of the last `/` of `s`, which must have one.
pub open spec fn last_slash(s: Chars) -> int {
    choose|k: int| 0 <= k < s.len() && s[k] == '/' && forall|j: int| k < j < s.len() ==> s[j] != '/'
}

/// `s` cut after its last `/`: the directory part, which ends with `/`, and the rest.
pub open spec fn split_after_last_slash(s: Chars) -> (Chars, Chars) {
    let k = last_slash(s);
    (s.take(k + 1), s.skip(k + 1))
}

/// A path query read as the directory to list and the filter for its entries.
/// A query that does not start with `/` or `~` is none.
pub open spec fn path_query(q: Chars, home: Chars) -> Option<(Chars, Chars)> {
    if !is_path_query(q) {
        None
    } else {
        let e = expand_home(q, home);
        if has_char(e, '/') {
            Some(split_after_last_slash(e))
        } else if has_char(home, '/') {
            Some(split_after_last_slash(home))
        } else {
            None
        }
    }
}

/// A sequence with a `/` has a last one.
pub proof fn lemma_last_slash_exists(s: Chars)
    requires
        has_char(s, '/'),
    ensures
        0 <= last_slash(s) < s.len(),
        s[last_slash(s)] == '/',
        forall|j: int| last_slash(s) < j < s.len() ==> s[j] != '/',
    decreases s.len(),
{
    if s.last() == '/' {
        lemma_last_slash(s, s.len() - 1);
    } else {
        let k0 = choose|k: int| 0 <= k < s.len() && s[k] == '/';
        assert(s.drop_last()[k0] == '/');
        lemma_last_slash_exists(s.drop_last());
        let k = last_slash(s.drop_last());
        assert forall|j: int| k < j < s.len() implies s[j] != '/' by {
            if j < s.len() - 1 {
                assert(s.drop_last()[j] == s[j]);
            }
        }
        lemma_last_slash(s, k);
    }
}

proof fn lemma_last_slash(s: Chars, k: int)
    requires
        0 <= k < s.len(),
        s[k] == '/',
        forall|j: int| k < j < s.len() ==> s[j] != '/',
    ensures
        last_slash(s) == k,
{
    assert(has_char(s, '/'));
    let c = last_slash(s);
    if c < k {
    } else if c > k {
    }
}

fn split_last_slash(s: &[char]) -> (r: Option<(String, String)>)
    ensures
        match r {
            Some((a, b)) => has_char(s@, '/') && (a@, b@) == split_after_last_slash(s@),
            None => !has_char(s@, '/'),
        },
{
    match rfind_char(s, '/') {
        Some(k) => {
            proof {
                lemma_last_slash(s@, k as int);
                assert(s@.take(k + 1) =~= s@.subrange(0, k + 1));
                assert(s@.skip(k + 1) =~= s@.subrange(k + 1, s@.len() as int));
            }
            let n = s.len();
            let a = string_of(&slice_chars(s, 0, k + 1));
            let b = string_of(&slice_chars(s, k + 1, n));
            Some((a, b))
        },
        None => None,
    }
}

fn expand_home_chars(q: &Vec<char>, home: &str) -> (r: Vec<char>)
    ensures
        r@ == expand_home(q@, home@),
{
    if crate::text::first_is(q, '~') {
        let rest = slice_chars(q, 1, q.len());
        let mut e = chars_of(home);
        let mut i: usize = 0;
        while i < rest.len()
            invariant
                i <= rest@.len(),
                e@ == home@ + rest@.take(i as int),
            decreases rest@.len() - i,
        {
            e.push(rest[i]);
            i += 1;
            proof {
                assert(e@ =~= home@ + rest@.take(i as int));
            }
        }
        proof {
            assert(rest@.take(rest@.len() as int) =~= q@.drop_first());
        }
        e
    } else {
        q.clone()
    }
}

/// Parses a path query into the parent folder to list and the filter for its entries;
/// `~` stands for `home`.
pub fn parse_path_query(query: &str, home: &str) -> (r: Option<(String, String)>)
    ensures
        match r {
            Some((parent, filter)) => path_query(query@, home@) == Some((parent@, filter@)),
            None => path_query(query@, home@) is None,
        },
{
    let q = chars_of(query);
    if !(crate::text::first_is(&q, '/') || crate::text::first_is(&q, '~')) {
        return None;
    }
    let expanded = expand_home_chars(&q, home);
    match split_last_slash(&expanded) {
        Some(parts) => Some(parts),
        None => split_last_slash(&chars_of(home)),
    }
}

/// The parent part of a path query ends with `/`, and the parent followed by the filter
/// is the query with `~` expanded: the split loses nothing.
pub proof fn law_path_query_split(q: Chars, home: Chars)
    requires
        is_path_query(q),
        has_char(expand_home(q, home), '/'),
    ensures
        path_query(q, home) matches Some((parent, filter)) && parent + filter == expand_home(q, home)
            && parent.last() == '/' && !has_char(filter, '/'),
{
    let e = expand_home(q, home);
    lemma_last_slash_exists(e);
    let k = last_slash(e);
    let (parent, filter) = split_after_last_slash(e);
    assert(parent + filter =~= e);
    assert(parent.last() == e[k]);
    assert forall|j: int| 0 <= j < filter.len() implies filter[j] != '/' by {
        assert(filter[j] == e[k + 1 + j]);
    }
}

// ---------------------------------------------------------------------------
// Directory listings
// ---------------------------------------------------------------------------

/// The keys that order a listing: directories first, then by lowercased name, entries
/// that compare equal kept in their order.
pub open spec fn listing_keys(es: Seq<FileEntryView>) -> Seq<KeyView> {
    Seq::new(
        es.len(),
        |i: int| (if es[i].is_dir { 0u32 } else { 1u32 }, lowercase_of(es[i].name), i as usize),
    )
}

/// A directory listing in display order: directories before files, each group by
/// lowercased name.
pub open spec fn sorted_listing(es: Seq<FileEntryView>) -> Seq<FileEntryView> {
    sorted_keys(listing_keys(es)).map_values(|k: KeyView| es[k.2 as int])
}

/// Sorts the entries of a directory: directories first, then alphabetically.
pub fn sort_listing(entries: &Vec<FileEntry>) -> (r: Vec<FileEntry>)
    ensures
        r@.map_values(|e: FileEntry| e@) == sorted_listing(entries@.map_values(|e: FileEntry| e@)),
{
    let ghost es = entries@.map_values(|e: FileEntry| e@);
    let mut keys: Vec<SortKey> = Vec::new();
    let mut i: usize = 0;
    while i < entries.len()
        invariant
            i <= entries@.len(),
            es == entries@.map_values(|e: FileEntry| e@),
            keys@.len() == i,
            forall|k: int| 0 <= k < i ==> (#[trigger] keys@[k]).model() == listing_keys(es)[k],
            forall|k: int| 0 <= k < i ==> (#[trigger] keys@[k]).index < entries@.len(),
        decreases entries@.len() - i,
    {
        let lower = to_lowercase(entries[i].name.as_str());
        let group: u32 = if entries[i].is_dir { 0 } else { 1 };
        keys.push(SortKey { group, text: chars_of(lower.as_str()), index: i });
        i += 1;
    }
    proof {
        assert(key_models(keys@) =~= listing_keys(es));
    }
    let pos = sorted_positions(keys, entries.len());
    let mut out: Vec<FileEntry> = Vec::new();
    let mut k: usize = 0;
    while k < pos.len()
        invariant
            k <= pos@.len(),
            es == entries@.map_values(|e: FileEntry| e@),
            forall|j: int| 0 <= j < pos@.len() ==> #[trigger] pos@[j] < entries@.len(),
            forall|j: int|
                0 <= j < pos@.len() ==> #[trigger] pos@[j] == sorted_keys(listing_keys(es))[j].2,
            out@.len() == k,
            forall|j: int| 0 <= j < k ==> (#[trigger] out@[j])@ == es[pos@[j] as int],
        decreases pos@.len() - k,
    {
        out.push(entries[pos[k]].duplicate());
        k += 1;
    }
    proof {
        crate::sort::lemma_sorted_keys_len(listing_keys(es));
        assert(out@.map_values(|e: FileEntry| e@) =~= sorted_listing(es));
    }
    out
}

// ---------------------------------------------------------------------------
// Moving through folders
// ---------------------------------------------------------------------------

/// A path as the search bar shows it: a leading home directory written as `~`.
pub open spec fn tilde_path(path: Chars, home: Chars) -> Chars {
    if home.len() > 0 && home.is_prefix_of(path) {
        "~"@ + path.skip(home.len() as int)
    } else {
        path
    }
}

/// Writes a leading home directory as `~`.
pub fn display_path(path: &str, home: &str) -> (r: String)
    ensures
        r@ == tilde_path(path@, home@),
{
    let p = chars_of(path);
    let h = chars_of(home);
    if h.len() > 0 && starts_with(&p, &h) {
        let rest = string_of(&slice_chars(&p, h.len(), p.len()));
        proof {
            assert(p@.subrange(h@.len() as int, p@.len() as int) =~= path@.skip(home@.len() as int));
        }
        concat_str("~", rest.as_str())
    } else {
        path.to_owned()
    }
}

/// The query that goes up one folder: a trailing `/` is dropped, then everything after
/// the last `/` goes; none when no `/` is left.
pub open spec fn parent_query(q: Chars, home: Chars) -> Option<Chars> {
    let p = if q.len() > 0 && q.last() == '/' {
        q.drop_last()
    } else {
        q
    };
    if has_char(p, '/') {
        Some(tilde_path(split_after_last_slash(p).0, home))
    } else {
        None
    }
}

/// Computes the query that shows the parent folder of the one in `query`.
pub fn go_up_query(query: &str, home: &str) -> (r: Option<String>)
    ensures
        match r {
            Some(s) => parent_query(query@, home@) == Some(s@),
            None => parent_query(query@, home@) is None,
        },
{
    let q = chars_of(query);
    let p = if last_is(&q, '/') {
        slice_chars(&q, 0, q.len() - 1)
    } else {
        q
    };
    proof {
        if query@.len() > 0 && query@.last() == '/' {
            assert(p@ =~= query@.drop_last());
        }
    }
    match split_last_slash(&p) {
        Some((parent, _rest)) => Some(display_path(parent.as_str(), home)),
        None => None,
    }
}

/// The query that enters a folder: its path, home written as `~`, and a `/`.
pub open spec fn enter_query(path: Chars, home: Chars) -> Chars {
    tilde_path(path, home) + "/"@
}

/// Computes the query that shows the contents of the folder at `path`.
pub fn go_into_query(path: &str, home: &str) -> (r: String)
    ensures
        r@ == enter_query(path@, home@),
{
    let d = display_path(path, home);
    concat_str(d.as_str(), "/")
}

/// Law: entering a folder and then going up one folder shows the folder that holds it.
/// The folder's path is `dir`, a `/` and its `name`; the home directory does not start
/// with `~` and, when it begins the path as text, does not reach past `dir`.
pub proof fn law_enter_then_up(dir: Chars, name: Chars, home: Chars)
    requires
        name.len() > 0,
        !has_char(name, '/'),
        home.len() == 0 || home[0] != '~',
        home.is_prefix_of(dir + seq!['/'] + name) ==> home.len() <= dir.len(),
    ensures
        parent_query(enter_query(dir + seq!['/'] + name, home), home) == Some(
            tilde_path(dir + seq!['/'], home),
        ),
{
    reveal_strlit("/");
    reveal_strlit("~");
    let p = dir + seq!['/'] + name;
    let parent = dir + seq!['/'];
    let t = tilde_path(p, home);
    let q = enter_query(p, home);
    assert(q.drop_last() =~= t);
    if home.len() > 0 && home.is_prefix_of(p) {
        let rest = dir.skip(home.len() as int);
        assert(t =~= seq!['~'] + rest + seq!['/'] + name);
        let k = (rest.len() + 1) as int;
        assert(t[k] == '/');
        assert forall|j: int| k < j < t.len() implies t[j] != '/' by {
            assert(t[j] == name[j - k - 1]);
        }
        lemma_last_slash(t, k);
        assert(has_char(t, '/'));
        let up = t.take(k + 1);
        assert(up =~= seq!['~'] + rest + seq!['/']);
        assert(!home.is_prefix_of(up)) by {
            assert(up[0] == '~');
        }
        assert(home.is_prefix_of(parent)) by {
            assert forall|j: int| 0 <= j < home.len() implies parent[j] == home[j] by {
                assert(p[j] == home[j]);
            }
        }
        assert(parent.skip(home.len() as int) =~= rest + seq!['/']);
    } else {
        assert(t == p);
        let k = dir.len() as int;
        assert(t[k] == '/');
        assert forall|j: int| k < j < t.len() implies t[j] != '/' by {
            assert(t[j] == name[j - k - 1]);
        }
        lemma_last_slash(t, k);
        assert(has_char(t, '/'));
        assert(t.take(k + 1) =~= parent);
        assert(!(home.len() > 0 && home.is_prefix_of(parent))) by {
            if home.len() > 0 && home.is_prefix_of(parent) {
                assert forall|j: int| 0 <= j < home.len() implies p[j] == home[j] by {
                    assert(p[j] == parent[j]);
                }
                assert(home.is_prefix_of(p));
            }
        }
    }
}

} // verus!
