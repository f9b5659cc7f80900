use vstd::prelude::*;

use crate::models::{AppEntry, AppEntryView};
use crate::runner::strings;
use crate::search::{app_hits, best_matches, key_hit, rank_scores, with_direct_icon};
use crate::sort::KeyView;
use crate::text::{chars_eq, chars_of, Chars};

verus! {

/// How many of the most launched applications the dashboard shows.
pub const RECENT_LIMIT: usize = 5;

/// The models of launch counts.
pub open spec fn history_view(h: Seq<(String, u32)>) -> Seq<(Chars, u32)> {
    h.map_values(|p: (String, u32)| (p.0@, p.1))
}

/// The last position at which `command` is counted.
pub open spec fn history_pos(h: Seq<(Chars, u32)>, command: Chars) -> Option<int>
    decreases h.len(),
{
    if h.len() == 0 {
        None
    } else if h.last().0 == command {
        Some(h.len() - 1)
    } else {
        history_pos(h.drop_last(), command)
    }
}

/// How many times `command` was launched.
pub open spec fn launch_count(h: Seq<(Chars, u32)>, command: Chars) -> u32 {
    match history_pos(h, command) {
        Some(i) => h[i].1,
        None => 0,
    }
}

/// The counts after one more launch of `command`: its count goes up by one (it stays at
/// the largest count there is), a command launched for the first time counts one.
pub open spec fn bumped(h: Seq<(Chars, u32)>, command: Chars) -> Seq<(Chars, u32)> {
    match history_pos(h, command) {
        Some(i) => h.update(
            i,
            (command, if h[i].1 < u32::MAX { (h[i].1 + 1) as u32 } else { h[i].1 }),
        ),
        None => h.push((command, 1u32)),
    }
}

/// `favs` without `command`.
pub open spec fn without(favs: Seq<Chars>, command: Chars) -> Seq<Chars>
    decreases favs.len(),
{
    if favs.len() == 0 {
        Seq::empty()
    } else {
        let rest = without(favs.drop_last(), command);
        if favs.last() == command {
            rest
        } else {
            rest.push(favs.last())
        }
    }
}

/// The favourites after toggling `command`: removed when it is one, added at the end
/// when it is not.
pub open spec fn toggled(favs: Seq<Chars>, command: Chars) -> Seq<Chars> {
    if favs.contains(command) {
        without(favs, command)
    } else {
        favs.push(command)
    }
}

/// The favourite applications, in the order of the list, each scored 0.
pub open spec fn favorite_part(es: Seq<AppEntryView>, favs: Seq<Chars>) -> Seq<(AppEntryView, u32)>
    decreases es.len(),
{
    if es.len() == 0 {
        Seq::empty()
    } else {
        let rest = favorite_part(es.drop_last(), favs);
        if favs.contains(es.last().command) {
            rest.push((with_direct_icon(es.last()), 0u32))
        } else {
            rest
        }
    }
}

/// The launch count of each application that is not a favourite and was launched.
pub open spec fn recent_scores(es: Seq<AppEntryView>, favs: Seq<Chars>, h: Seq<(Chars, u32)>) -> Seq<
    Option<u32>,
> {
    Seq::new(
        es.len(),
        |i: int|
            if !favs.contains(es[i].command) && launch_count(h, es[i].command) > 0 {
                Some(launch_count(h, es[i].command))
            } else {
                None
            },
    )
}

/// The most launched applications that are not favourites: at most `RECENT_LIMIT`, most
/// launched first, equal counts in the order of the list, each with its count.
pub open spec fn recent_part(es: Seq<AppEntryView>, favs: Seq<Chars>, h: Seq<(Chars, u32)>) -> Seq<
    (AppEntryView, u32),
> {
    let best = best_matches(recent_scores(es, favs, h), Seq::new(es.len(), |i: int| true));
    let top = if best.len() <= RECENT_LIMIT {
        best
    } else {
        best.take(RECENT_LIMIT as int)
    };
    top.map_values(|k: KeyView| (with_direct_icon(es[k.2 as int]), key_hit(k).1))
}

/// What the launcher shows for an empty query: the favourite applications, then the
/// most launched other ones.
pub open spec fn dashboard(es: Seq<AppEntryView>, favs: Seq<Chars>, h: Seq<(Chars, u32)>) -> Seq<
    (AppEntryView, u32),
> {
    favorite_part(es, favs) + recent_part(es, favs, h)
}

/// Copies a list of strings.
pub fn copy_strings(v: &Vec<String>) -> (r: Vec<String>)
    ensures
        strings(r@) == strings(v@),
{
    let mut out: Vec<String> = Vec::new();
    let mut i: usize = 0;
    while i < v.len()
        invariant
            i <= v@.len(),
            strings(out@) == strings(v@).take(i as int),
        decreases v@.len() - i,
    {
        let ghost before = strings(out@);
        out.push(v[i].clone());
        proof {
            assert(strings(out@) =~= before.push(strings(v@)[i as int]));
            assert(strings(v@).take(i + 1) =~= strings(v@).take(i as int).push(strings(v@)[i as int]));
        }
        i += 1;
    }
    assert(strings(v@).take(v@.len() as int) =~= strings(v@));
    out
}

/// Copies launch counts.
pub fn copy_history(v: &Vec<(String, u32)>) -> (r: Vec<(String, u32)>)
    ensures
        history_view(r@) == history_view(v@),
{
    let mut out: Vec<(String, u32)> = Vec::new();
    let mut i: usize = 0;
    while i < v.len()
        invariant
            i <= v@.len(),
            history_view(out@) == history_view(v@).take(i as int),
        decreases v@.len() - i,
    {
        let ghost before = history_view(out@);
        out.push((v[i].0.clone(), v[i].1));
        proof {
            assert(history_view(out@) =~= before.push(history_view(v@)[i as int]));
            assert(history_view(v@).take(i + 1) =~= history_view(v@).take(i as int).push(history_view(v@)[i as int]));
        }
        i += 1;
    }
    assert(history_view(v@).take(v@.len() as int) =~= history_view(v@));
    out
}

/// Whether `command` is one of the favourites.
pub fn is_favorite(favorites: &Vec<String>, command: &str) -> (r: bool)
    ensures
        r == strings(favorites@).contains(command@),
{
    let c = chars_of(command);
    let ghost fs = strings(favorites@);
    let mut i: usize = 0;
    while i < favorites.len()
        invariant
            i <= favorites@.len(),
            fs == strings(favorites@),
            c@ == command@,
            forall|j: int| 0 <= j < i ==> fs[j] != command@,
        decreases favorites@.len() - i,
    {
        if chars_eq(&chars_of(favorites[i].as_str()), &c) {
            assert(fs[i as int] == command@);
            return true;
        }
        i += 1;
    }
    false
}

/// A position that `history_pos` gives is one of `command`.
pub proof fn lemma_history_pos(h: Seq<(Chars, u32)>, command: Chars)
    ensures
        history_pos(h, command) matches Some(i) ==> 0 <= i < h.len() && h[i].0 == command,
    decreases h.len(),
{
    if h.len() > 0 && h.last().0 != command {
        lemma_history_pos(h.drop_last(), command);
    }
}

fn find_in_history(history: &Vec<(String, u32)>, command: &str) -> (r: Option<usize>)
    ensures
        match r {
            Some(i) => history_pos(history_view(history@), command@) == Some(i as int) && i < history@.len(),
            None => history_pos(history_view(history@), command@) is None,
        },
{
    let c = chars_of(command);
    let ghost hv = history_view(history@);
    let mut i: usize = history.len();
    assert(hv.take(history@.len() as int) =~= hv);
    while i > 0
        invariant
            i <= history@.len(),
            hv == history_view(history@),
            c@ == command@,
            history_pos(hv, command@) == history_pos(hv.take(i as int), command@),
        decreases i,
    {
        proof {
            assert(hv.take(i as int).drop_last() =~= hv.take(i - 1));
        }
        if chars_eq(&chars_of(history[i - 1].0.as_str()), &c) {
            return Some(i - 1);
        }
        i -= 1;
    }
    None
}

/// Whether the launch counts hold `command`.
pub fn in_history(history: &Vec<(String, u32)>, command: &str) -> (r: bool)
    ensures
        r == history_pos(history_view(history@), command@) is Some,
{
    find_in_history(history, command).is_some()
}

/// How many times `command` was launched.
pub fn launches_of(history: &Vec<(String, u32)>, command: &str) -> (r: u32)
    ensures
        r == launch_count(history_view(history@), command@),
{
    match find_in_history(history, command) {
        Some(i) => history[i].1,
        None => 0,
    }
}

/// Counts one more launch of `command`.
pub fn record_launch(history: &mut Vec<(String, u32)>, command: &str)
    ensures
        history_view(final(history)@) == bumped(history_view(old(history)@), command@),
{
    match find_in_history(history, command) {
        Some(i) => {
            let n = history[i].1;
            let m = if n < u32::MAX {
                n + 1
            } else {
                n
            };
            history.set(i, (command.to_owned(), m));
            proof {
                assert(history_view(history@) =~= bumped(history_view(old(history)@), command@));
            }
        },
        None => {
            history.push((command.to_owned(), 1));
            proof {
                assert(history_view(history@) =~= bumped(history_view(old(history)@), command@));
            }
        },
    }
}

proof fn lemma_without_contains(favs: Seq<Chars>, command: Chars)
    ensures
        !without(favs, command).contains(command),
    decreases favs.len(),
{
    if favs.len() > 0 {
        lemma_without_contains(favs.drop_last(), command);
        let rest = without(favs.drop_last(), command);
        if favs.last() != command {
            assert forall|k: int| 0 <= k < rest.len() + 1 implies rest.push(favs.last())[k] != command by {
                if k < rest.len() {
                    assert(rest.push(favs.last())[k] == rest[k]);
                }
            }
        }
    }
}

/// Adds `command` to the favourites, or removes it when it is one.
pub fn toggle_favorite(favorites: &mut Vec<String>, command: &str)
    ensures
        strings(final(favorites)@) == toggled(strings(old(favorites)@), command@),
{
    let ghost fs = strings(favorites@);
    if is_favorite(favorites, command) {
        let c = chars_of(command);
        let mut kept: Vec<String> = Vec::new();
        let mut i: usize = 0;
        while i < favorites.len()
            invariant
                i <= favorites@.len(),
                fs == strings(favorites@),
                c@ == command@,
                strings(kept@) == without(fs.take(i as int), command@),
            decreases favorites@.len() - i,
        {
            proof {
                assert(fs.take(i + 1).drop_last() =~= fs.take(i as int));
            }
            let ghost before = strings(kept@);
            if !chars_eq(&chars_of(favorites[i].as_str()), &c) {
                kept.push(favorites[i].clone());
                proof {
                    assert(strings(kept@) =~= before.push(fs[i as int]));
                }
            }
            i += 1;
        }
        proof {
            assert(fs.take(fs.len() as int) =~= fs);
        }
        *favorites = kept;
    } else {
        let ghost before = strings(favorites@);
        favorites.push(command.to_owned());
        proof {
            assert(strings(favorites@) =~= before.push(command@));
        }
    }
}

/// Computes the dashboard shown for an empty query.
pub fn dashboard_entries(entries: &Vec<AppEntry>, favorites: &Vec<String>, history: &Vec<(String, u32)>) -> (r: Vec<
    (AppEntry, u32),
>)
    ensures
        app_hits(r@) == dashboard(
            entries@.map_values(|e: AppEntry| e@),
            strings(favorites@),
            history_view(history@),
        ),
{
    let ghost es = entries@.map_values(|e: AppEntry| e@);
    let ghost fs = strings(favorites@);
    let ghost hv = history_view(history@);
    let mut out: Vec<(AppEntry, u32)> = Vec::new();
    let mut scores: Vec<Option<u32>> = Vec::new();
    let mut shown: Vec<bool> = Vec::new();
    let mut i: usize = 0;
    while i < entries.len()
        invariant
            i <= entries@.len(),
            es == entries@.map_values(|e: AppEntry| e@),
            fs == strings(favorites@),
            hv == history_view(history@),
            app_hits(out@) == favorite_part(es.take(i as int), fs),
            scores@ == recent_scores(es, fs, hv).take(i as int),
            shown@ == Seq::new(i as nat, |j: int| true),
        decreases entries@.len() - i,
    {
        proof {
            assert(es.take(i + 1).drop_last() =~= es.take(i as int));
            assert(es.take(i + 1).last() == entries@[i as int]@);
        }
        let e = &entries[i];
        let fav = is_favorite(favorites, e.command.as_str());
        let ghost before = app_hits(out@);
        if fav {
            out.push((crate::search::direct_icon(e), 0));
            proof {
                assert(app_hits(out@) =~= before.push((with_direct_icon(es[i as int]), 0u32)));
            }
            scores.push(None);
        } else {
            let n = launches_of(history, e.command.as_str());
            if n > 0 {
                scores.push(Some(n));
            } else {
                scores.push(None);
            }
        }
        shown.push(true);
        i += 1;
        proof {
            assert(scores@ =~= recent_scores(es, fs, hv).take(i as int));
            assert(shown@ =~= Seq::new(i as nat, |j: int| true));
        }
    }
    proof {
        assert(es.take(es.len() as int) =~= es);
        assert(scores@ =~= recent_scores(es, fs, hv));
        assert(shown@ =~= Seq::new(es.len(), |j: int| true));
    }
    let ghost fav_part = app_hits(out@);
    let hits = rank_scores(&scores, &shown);
    let ghost best = best_matches(recent_scores(es, fs, hv), Seq::new(es.len(), |j: int| true));
    let mut k: usize = 0;
    while k < hits.len() && k < RECENT_LIMIT
        invariant
            k <= hits@.len() == best.len(),
            k <= RECENT_LIMIT,
            forall|j: int| 0 <= j < hits@.len() ==> #[trigger] hits@[j] == key_hit(best[j]),
            forall|j: int| 0 <= j < hits@.len() ==> (#[trigger] hits@[j]).0 < entries@.len(),
            es == entries@.map_values(|e: AppEntry| e@),
            app_hits(out@).len() == fav_part.len() + k,
            forall|j: int| 0 <= j < fav_part.len() ==> #[trigger] app_hits(out@)[j] == fav_part[j],
            forall|j: int|
                0 <= j < k ==> #[trigger] app_hits(out@)[fav_part.len() + j] == (
                    with_direct_icon(es[best[j].2 as int]),
                    key_hit(best[j]).1,
                ),
        decreases hits@.len() - k,
    {
        let (pos, sc) = hits[k];
        let e = crate::search::direct_icon(&entries[pos]);
        let ghost before = app_hits(out@);
        out.push((e, sc));
        proof {
            assert(app_hits(out@) =~= before.push((with_direct_icon(es[best[k as int].2 as int]), key_hit(best[k as int]).1)));
        }
        k += 1;
    }
    proof {
        let top = if best.len() <= RECENT_LIMIT {
            best
        } else {
            best.take(RECENT_LIMIT as int)
        };
        assert(top.len() == k);
        let rp = recent_part(es, fs, hv);
        assert(rp.len() == k);
        assert forall|j: int| 0 <= j < k implies #[trigger] rp[j] == app_hits(out@)[fav_part.len() + j] by {
            assert(top[j] == best[j]);
        }
        let d = dashboard(es, fs, hv);
        assert(d.len() == app_hits(out@).len());
        assert forall|j: int| 0 <= j < d.len() implies #[trigger] d[j] == app_hits(out@)[j] by {
            if j < fav_part.len() {
                assert(d[j] == fav_part[j]);
            } else {
                assert(d[j] == rp[j - fav_part.len()]);
                assert(app_hits(out@)[fav_part.len() + (j - fav_part.len())] == rp[j - fav_part.len()]);
            }
        }
        assert(app_hits(out@) =~= dashboard(es, fs, hv));
    }
    out
}

/// What `without` keeps: everything but `command`.
pub proof fn lemma_without(favs: Seq<Chars>, command: Chars)
    ensures
        forall|x: Chars| #[trigger] without(favs, command).contains(x) <==> favs.contains(x) && x != command,
    decreases favs.len(),
{
    if favs.len() > 0 {
        let d = favs.drop_last();
        lemma_without(d, command);
        let rest = without(d, command);
        assert forall|x: Chars| #[trigger] without(favs, command).contains(x) <==> favs.contains(x) && x != command by {
            if favs.contains(x) && x != command {
                let k = choose|k: int| 0 <= k < favs.len() && favs[k] == x;
                if k < d.len() {
                    assert(d[k] == x);
                    assert(d.contains(x));
                    assert(rest.contains(x));
                    let j = choose|j: int| 0 <= j < rest.len() && rest[j] == x;
                    if favs.last() != command {
                        assert(rest.push(favs.last())[j] == x);
                    }
                } else {
                    assert(without(favs, command).last() == x);
                }
            }
            if without(favs, command).contains(x) {
                let k = choose|k: int| 0 <= k < without(favs, command).len() && without(favs, command)[k] == x;
                if k < rest.len() {
                    assert(rest[k] == x);
                    assert(rest.contains(x));
                    assert(d.contains(x));
                    let j = choose|j: int| 0 <= j < d.len() && d[j] == x;
                    assert(favs[j] == x);
                } else {
                    assert(favs[favs.len() - 1] == x);
                }
            }
        }
    }
}

/// `without` leaves a list that does not hold `command` as it is.
proof fn lemma_without_absent(favs: Seq<Chars>, command: Chars)
    requires
        !favs.contains(command),
    ensures
        without(favs, command) == favs,
    decreases favs.len(),
{
    if favs.len() > 0 {
        let d = favs.drop_last();
        assert(!d.contains(command)) by {
            if d.contains(command) {
                let k = choose|k: int| 0 <= k < d.len() && d[k] == command;
                assert(favs[k] == command);
            }
        }
        lemma_without_absent(d, command);
        assert(favs[favs.len() - 1] != command);
        assert(d.push(favs.last()) =~= favs);
    }
}

/// Law: toggling an application as a favourite makes it one exactly when it was not,
/// leaves every other favourite as it was, and toggling it again gives back the same
/// favourites; when it was not a favourite, the very same list.
pub proof fn law_toggle_favorite(favs: Seq<Chars>, command: Chars)
    ensures
        !favs.contains(command) ==> toggled(toggled(favs, command), command) == favs,
        toggled(favs, command).contains(command) <==> !favs.contains(command),
        forall|x: Chars| x != command ==> (#[trigger] toggled(favs, command).contains(x) <==> favs.contains(x)),
        forall|x: Chars| #[trigger] toggled(toggled(favs, command), command).contains(x) <==> favs.contains(x),
{
    lemma_without(favs, command);
    let t = toggled(favs, command);
    lemma_without(t, command);
    if !favs.contains(command) {
        lemma_without_absent(favs, command);
        assert(t.drop_last() =~= favs);
        assert(t.contains(command)) by {
            assert(t[favs.len() as int] == command);
        }
        assert(favs.push(command)[favs.len() as int] == command);
        assert forall|x: Chars| x != command implies (#[trigger] t.contains(x) <==> favs.contains(x)) by {
            if favs.contains(x) {
                let k = choose|k: int| 0 <= k < favs.len() && favs[k] == x;
                assert(t[k] == x);
            }
            if t.contains(x) {
                let k = choose|k: int| 0 <= k < t.len() && t[k] == x;
                assert(favs[k] == x);
            }
        }
    } else {
        lemma_without_contains(favs, command);
        assert(t.push(command)[t.len() as int] == command);
        assert forall|x: Chars| #[trigger] toggled(t, command).contains(x) <==> favs.contains(x) by {
            if x != command {
                if t.contains(x) {
                    let k = choose|k: int| 0 <= k < t.len() && t[k] == x;
                    assert(t.push(command)[k] == x);
                }
                if t.push(command).contains(x) {
                    let k = choose|k: int| 0 <= k < t.len() + 1 && t.push(command)[k] == x;
                    assert(t[k] == x);
                }
            }
        }
    }
}

/// Histories with the same commands at the same places find every command at the same place.
proof fn lemma_history_pos_same_keys(h1: Seq<(Chars, u32)>, h2: Seq<(Chars, u32)>, command: Chars)
    requires
        h1.len() == h2.len(),
        forall|k: int| 0 <= k < h1.len() ==> #[trigger] h1[k].0 == h2[k].0,
    ensures
        history_pos(h1, command) == history_pos(h2, command),
    decreases h1.len(),
{
    if h1.len() > 0 {
        assert(h1.last().0 == h2.last().0);
        let d1 = h1.drop_last();
        let d2 = h2.drop_last();
        assert forall|k: int| 0 <= k < d1.len() implies #[trigger] d1[k].0 == d2[k].0 by {
            assert(d1[k] == h1[k] && d2[k] == h2[k]);
        }
        lemma_history_pos_same_keys(d1, d2, command);
    }
}

/// Law: launching an application adds one to its launch count (which stays at the
/// largest count there is) and leaves every other application's count as it was.
pub proof fn law_launch_counted(h: Seq<(Chars, u32)>, command: Chars, other: Chars)
    requires
        other != command,
    ensures
        launch_count(bumped(h, command), command) == if launch_count(h, command) < u32::MAX {
            launch_count(h, command) + 1
        } else {
            launch_count(h, command) as int
        },
        launch_count(bumped(h, command), other) == launch_count(h, other),
{
    lemma_history_pos(h, command);
    match history_pos(h, command) {
        Some(i) => {
            let n = if h[i].1 < u32::MAX { (h[i].1 + 1) as u32 } else { h[i].1 };
            let b = h.update(i, (command, n));
            assert forall|k: int| 0 <= k < h.len() implies #[trigger] h[k].0 == b[k].0 by {}
            lemma_history_pos_same_keys(h, b, command);
            lemma_history_pos_same_keys(h, b, other);
            lemma_history_pos(h, other);
        },
        None => {
            let b = h.push((command, 1u32));
            assert(b.drop_last() =~= h);
            lemma_history_pos(h, other);
        },
    }
}

} // verus!
