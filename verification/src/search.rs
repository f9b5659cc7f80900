use vstd::prelude::*;

use nucleo_matcher::pattern::{CaseMatching, Normalization, Pattern};
use nucleo_matcher::{Config, Matcher, Utf32Str};

use crate::models::{AppEntry, AppEntryView, FileEntry, FileEntryView};
use crate::sort::{key_models, sort_keys, sorted_keys, KeyView, SortKey};
use crate::text::Chars;

verus! {

broadcast use vstd::seq_lib::group_to_multiset_ensures;

/// The fuzzy matcher of `nucleo_matcher`, holding its scratch memory.
#[verifier::external_type_specification]
#[verifier::external_body]
pub struct ExMatcher(Matcher);

/// How many results a search shows at most.
pub const RESULT_LIMIT: usize = 8;

/// What `nucleo_matcher` scores `haystack` against the search text `query`, read as a
/// pattern with case ignored and smart normalization, under the default configuration;
/// `None` when it does not match.
pub uninterp spec fn fuzzy_score(query: Chars, haystack: Chars) -> Option<u32>;

/// A fuzzy matcher with `nucleo_matcher`'s default configuration. Its matcher can be
/// made only by `new_matcher`, so every one has that configuration.
struct FuzzyMatcher {
    matcher: Matcher,
}

/// Makes a fuzzy matcher.
/// Trusted: `Matcher::new(Config::DEFAULT)`; nothing is claimed of the value.
#[verifier::external_body]
fn new_matcher() -> FuzzyMatcher {
    FuzzyMatcher { matcher: Matcher::new(Config::DEFAULT) }
}

/// Scores `haystack` against the search text `query`.
/// Trusted: `Pattern::parse(query, CaseMatching::Ignore, Normalization::Smart)` then
/// `Pattern::score` on the haystack. Every `FuzzyMatcher` has the default configuration,
/// and scoring changes no part of it but the case and normalization settings, which each
/// word of the pattern sets before it is matched; so the result depends on `query` and
/// `haystack` alone and is named `fuzzy_score`. The matcher panics on a haystack longer than
/// `u32::MAX` characters, and a word of the query adds to a `u16` score for each character
/// it matches, which overflows (and panics in a build with overflow checks) for a word of
/// a few thousand characters; `requires` leaves both out, the query by `query_scored`.
#[verifier::external_body]
fn score_text(matcher: &mut FuzzyMatcher, query: &str, haystack: &str) -> (r: Option<u32>)
    requires
        haystack@.len() <= u32::MAX,
        query_scored(query@),
    ensures
        r == fuzzy_score(query@, haystack@),
{
    let pattern = Pattern::parse(query, CaseMatching::Ignore, Normalization::Smart);
    let mut buf = Vec::new();
    pattern.score(Utf32Str::new(haystack, &mut buf), &mut matcher.matcher)
}

/// The sort key of a match: higher scores first, then earlier positions.
pub open spec fn match_key(score: u32, pos: int) -> KeyView {
    ((u32::MAX - score) as u32, Seq::empty(), pos as usize)
}

/// The keys of the candidates that match, in their order: candidate `i` takes part
/// when `shown[i]` holds and `scores[i]` is a score.
pub open spec fn match_keys(scores: Seq<Option<u32>>, shown: Seq<bool>) -> Seq<KeyView>
    decreases scores.len(),
{
    if scores.len() == 0 {
        Seq::empty()
    } else {
        let rest = match_keys(scores.drop_last(), shown.drop_last());
        let i = scores.len() - 1;
        match scores.last() {
            Some(s) => if shown.last() {
                rest.push(match_key(s, i))
            } else {
                rest
            },
            None => rest,
        }
    }
}

/// The best matches: the matching candidates ordered by score, highest first, candidates
/// with equal scores in their original order, and at most `RESULT_LIMIT` of them.
pub open spec fn best_matches(scores: Seq<Option<u32>>, shown: Seq<bool>) -> Seq<KeyView> {
    let all = sorted_keys(match_keys(scores, shown));
    if all.len() <= RESULT_LIMIT {
        all
    } else {
        all.take(RESULT_LIMIT as int)
    }
}

/// The position and score a sort key stands for.
pub open spec fn key_hit(k: KeyView) -> (usize, u32) {
    (k.2, (u32::MAX - k.0) as u32)
}

/// The longest word of a search text that is scored, in characters. The matcher splits
/// the text into words at each space that no backslash escapes, and scores each word
/// in a `u16`: at most 44 points for its first character and 26 for each other one,
/// which stays below `u16::MAX` up to 2519 characters and overflows (panicking in a
/// build with overflow checks) past that.
pub const WORD_LIMIT: usize = 2500;

/// The longest search text that is scored, in characters. The words' scores (at most
/// 44 points a character) are summed in a `u32`, which this keeps from overflowing.
pub const QUERY_LIMIT: usize = 90000000;

/// Whether the space at `i` separates two words of a search text: it is not escaped by
/// a backslash just before it.
pub open spec fn splits_at(q: Chars, i: int) -> bool {
    q[i] == ' ' && (i == 0 || q[i - 1] != '\\')
}

/// The length of the word that `q` ends in.
pub open spec fn last_word_len(q: Chars) -> nat
    decreases q.len(),
{
    if q.len() == 0 {
        0
    } else if splits_at(q, q.len() - 1) {
        0
    } else {
        last_word_len(q.drop_last()) + 1
    }
}

/// The length of the longest word of `q`.
pub open spec fn longest_word(q: Chars) -> nat
    decreases q.len(),
{
    if q.len() == 0 {
        0
    } else {
        let rest = longest_word(q.drop_last());
        if last_word_len(q) > rest {
            last_word_len(q)
        } else {
            rest
        }
    }
}

/// Whether a search text is scored: no word longer than `WORD_LIMIT`, and the whole
/// text no longer than `QUERY_LIMIT`.
pub open spec fn query_scored(q: Chars) -> bool {
    q.len() <= QUERY_LIMIT && longest_word(q) <= WORD_LIMIT
}

/// The score of `haystack` for the search text `query`: the fuzzy score, for a text
/// that `query_scored` admits; none for any other.
pub open spec fn scored(query: Chars, haystack: Chars) -> Option<u32> {
    if query_scored(query) {
        fuzzy_score(query, haystack)
    } else {
        None
    }
}

/// The scores of the candidates' names for the search text `query`.
pub open spec fn name_scores(query: Chars, names: Seq<Chars>) -> Seq<Option<u32>> {
    Seq::new(names.len(), |i: int| scored(query, names[i]))
}

/// Every key of `match_keys` stands for a candidate position.
pub proof fn lemma_match_keys_in_range(scores: Seq<Option<u32>>, shown: Seq<bool>)
    ensures
        forall|k: int|
            0 <= k < match_keys(scores, shown).len() ==> #[trigger] match_keys(scores, shown)[k].2
                < scores.len(),
        forall|k: int|
            0 <= k < match_keys(scores, shown).len() ==> #[trigger] match_keys(scores, shown)[k].1
                == Seq::<char>::empty(),
    decreases scores.len(),
{
    if scores.len() > 0 {
        let rest = match_keys(scores.drop_last(), shown.drop_last());
        lemma_match_keys_in_range(scores.drop_last(), shown.drop_last());
        let all = match_keys(scores, shown);
        assert forall|k: int| 0 <= k < all.len() implies #[trigger] all[k].2 < scores.len() && all[
            k].1 == Seq::<char>::empty() by {
            if k < rest.len() {
                assert(all[k] == rest[k]);
            }
        }
    }
}

/// Ranks scored candidates: the positions and scores of the best matches, best first.
pub fn rank_scores(scores: &Vec<Option<u32>>, shown: &Vec<bool>) -> (r: Vec<(usize, u32)>)
    requires
        shown@.len() == scores@.len(),
    ensures
        r@.len() == best_matches(scores@, shown@).len(),
        forall|k: int| 0 <= k < r@.len() ==> #[trigger] r@[k] == key_hit(best_matches(scores@, shown@)[k]),
        forall|k: int| 0 <= k < r@.len() ==> (#[trigger] r@[k]).0 < scores@.len(),
{
    let ghost ns = scores@;
    let mut keys: Vec<SortKey> = Vec::new();
    let mut i: usize = 0;
    while i < scores.len()
        invariant
            i <= scores@.len() == shown@.len(),
            ns == scores@,
            key_models(keys@) == match_keys(ns.take(i as int), shown@.take(i as int)),
        decreases scores@.len() - i,
    {
        proof {
            assert(ns.take(i + 1).drop_last() =~= ns.take(i as int));
            assert(shown@.take(i + 1).drop_last() =~= shown@.take(i as int));
            assert(ns.take(i + 1).last() == scores@[i as int]);
        }
        match scores[i] {
            Some(s) => {
                if shown[i] {
                    let ghost before = key_models(keys@);
                    keys.push(SortKey { group: u32::MAX - s, text: Vec::new(), index: i });
                    proof {
                        assert(key_models(keys@) =~= before.push(match_key(s, i as int)));
                    }
                }
            },
            None => {},
        }
        i += 1;
    }
    proof {
        assert(ns.take(scores@.len() as int) =~= ns);
        assert(shown@.take(scores@.len() as int) =~= shown@);
    }
    let ghost mk = match_keys(ns, shown@);
    let sorted = sort_keys(keys);
    let ghost all = sorted_keys(mk);
    proof {
        lemma_match_keys_in_range(ns, shown@);
        crate::sort::lemma_key_le_total_ordering();
        mk.lemma_sort_by_ensures(crate::sort::key_order());
        assert forall|k: int| 0 <= k < all.len() implies #[trigger] all[k].2 < ns.len() by {
            assert(all.contains(all[k]));
            assert(all.to_multiset().count(all[k]) > 0);
            assert(mk.to_multiset().count(all[k]) > 0);
            assert(mk.contains(all[k]));
        }
    }
    let mut out: Vec<(usize, u32)> = Vec::new();
    let mut k: usize = 0;
    while k < sorted.len() && k < RESULT_LIMIT
        invariant
            key_models(sorted@) == all,
            k <= sorted@.len(),
            k <= RESULT_LIMIT,
            out@.len() == k,
            forall|j: int| 0 <= j < all.len() ==> #[trigger] all[j].2 < ns.len(),
            ns.len() == scores@.len(),
            forall|j: int| 0 <= j < k ==> #[trigger] out@[j] == key_hit(all[j]),
        decreases sorted@.len() - k,
    {
        let ghost m = all[k as int];
        assert(sorted@[k as int].model() == m);
        let e = (sorted[k].index, u32::MAX - sorted[k].group);
        proof {
            assert(u32::MAX - (u32::MAX - sorted@[k as int].group) == sorted@[k as int].group);
        }
        out.push(e);
        k += 1;
    }
    proof {
        let best = best_matches(ns, shown@);
        assert(out@.len() == best.len());
        assert forall|j: int| 0 <= j < out@.len() implies #[trigger] out@[j] == key_hit(best[j]) by {
            assert(best[j] == all[j]);
        }
    }
    out
}

/// Whether a search text is short enough to be scored.
fn query_fits(query: &str) -> (r: bool)
    ensures
        r == query_scored(query@),
{
    let q = crate::text::chars_of(query);
    if q.len() > QUERY_LIMIT {
        return false;
    }
    let mut run: usize = 0;
    let mut longest: usize = 0;
    let mut i: usize = 0;
    while i < q.len()
        invariant
            i <= q@.len() <= QUERY_LIMIT,
            run == last_word_len(q@.take(i as int)),
            longest == longest_word(q@.take(i as int)),
            run <= i,
            longest <= i,
        decreases q@.len() - i,
    {
        proof {
            assert(q@.take(i + 1).drop_last() =~= q@.take(i as int));
            if i > 0 {
                assert(q@.take(i + 1)[i - 1] == q@[i - 1]);
            }
        }
        let split = q[i] == ' ' && (i == 0 || q[i - 1] != '\\');
        if split {
            run = 0;
        } else {
            run = run + 1;
        }
        if run > longest {
            longest = run;
        }
        i += 1;
    }
    assert(q@.take(q@.len() as int) =~= q@);
    longest <= WORD_LIMIT
}

/// Scores each name for the search text `query`.
pub fn score_names(query: &str, names: &Vec<String>) -> (r: Vec<Option<u32>>)
    requires
        forall|i: int| 0 <= i < names@.len() ==> (#[trigger] names@[i])@.len() <= u32::MAX,
    ensures
        r@ == name_scores(query@, names@.map_values(|s: String| s@)),
{
    let fits = query_fits(query);
    let mut matcher = new_matcher();
    let mut out: Vec<Option<u32>> = Vec::new();
    let mut i: usize = 0;
    while i < names.len()
        invariant
            i <= names@.len(),
            fits == query_scored(query@),
            forall|j: int| 0 <= j < names@.len() ==> (#[trigger] names@[j])@.len() <= u32::MAX,
            out@.len() == i,
            forall|j: int| 0 <= j < i ==> #[trigger] out@[j] == scored(query@, names@[j]@),
        decreases names@.len() - i,
    {
        let sc = if fits {
            score_text(&mut matcher, query, names[i].as_str())
        } else {
            None
        };
        out.push(sc);
        i += 1;
    }
    assert(out@ =~= name_scores(query@, names@.map_values(|s: String| s@)));
    out
}

/// Ranks candidates against a search text: the positions and scores of the best matches,
/// best first.
pub fn rank_names(query: &str, names: &Vec<String>, shown: &Vec<bool>) -> (r: Vec<(usize, u32)>)
    requires
        shown@.len() == names@.len(),
        forall|i: int| 0 <= i < names@.len() ==> (#[trigger] names@[i])@.len() <= u32::MAX,
    ensures
        r@.len() == best_matches(name_scores(query@, names@.map_values(|s: String| s@)), shown@).len(),
        forall|k: int|
            0 <= k < r@.len() ==> #[trigger] r@[k] == key_hit(
                best_matches(name_scores(query@, names@.map_values(|s: String| s@)), shown@)[k],
            ),
        forall|k: int| 0 <= k < r@.len() ==> (#[trigger] r@[k]).0 < names@.len(),
{
    let scores = score_names(query, names);
    rank_scores(&scores, shown)
}


// ---------------------------------------------------------------------------
// Launcher results
// ---------------------------------------------------------------------------

/// An entry whose icon is an absolute path gets that path as its icon path, if it has none.
pub open spec fn with_direct_icon(e: AppEntryView) -> AppEntryView {
    match (e.icon_path, e.icon) {
        (None, Some(n)) => if n.len() > 0 && n[0] == '/' {
            AppEntryView { icon_path: Some(n), ..e }
        } else {
            e
        },
        _ => e,
    }
}

/// The better of two scores; a score beats no score.
pub open spec fn better(a: Option<u32>, b: Option<u32>) -> Option<u32> {
    match (a, b) {
        (Some(x), Some(y)) => Some(if x >= y { x } else { y }),
        (Some(x), None) => Some(x),
        (None, y) => y,
    }
}

/// The score of an application for a search text: the better of the scores of its
/// name and of its description.
pub open spec fn entry_score(query: Chars, e: AppEntryView) -> Option<u32> {
    better(
        scored(query, e.name),
        match e.description {
            Some(d) => scored(query, d),
            None => None,
        },
    )
}

/// The scores of the applications for a search text.
pub open spec fn entry_scores(query: Chars, entries: Seq<AppEntryView>) -> Seq<Option<u32>> {
    Seq::new(entries.len(), |i: int| entry_score(query, entries[i]))
}

/// An application whose name and description fit the matcher's limit.
pub open spec fn entry_fits(e: AppEntryView) -> bool {
    &&& e.name.len() <= u32::MAX
    &&& (e.description matches Some(d) ==> d.len() <= u32::MAX)
}

/// The launcher's results for a non-empty query: the best matches among the entries,
/// scored by name and description, each with its score; an empty query has none.
pub open spec fn launcher_results(query: Chars, entries: Seq<AppEntryView>) -> Seq<(AppEntryView, u32)> {
    if query.len() == 0 {
        Seq::empty()
    } else {
        let best = best_matches(entry_scores(query, entries), Seq::new(entries.len(), |i: int| true));
        best.map_values(|k: KeyView| (with_direct_icon(entries[k.2 as int]), key_hit(k).1))
    }
}

/// The models of a list of results.
pub open spec fn app_hits(v: Seq<(AppEntry, u32)>) -> Seq<(AppEntryView, u32)> {
    v.map_values(|h: (AppEntry, u32)| (h.0@, h.1))
}

/// The models of a list of file results.
pub open spec fn file_hits(v: Seq<(FileEntry, u32)>) -> Seq<(FileEntryView, u32)> {
    v.map_values(|h: (FileEntry, u32)| (h.0@, h.1))
}

pub(crate) fn direct_icon(e: &AppEntry) -> (r: AppEntry)
    ensures
        r@ == with_direct_icon(e@),
{
    let mut out = e.duplicate();
    if out.icon_path.is_none() {
        match &e.icon {
            Some(n) => {
                let nc = crate::text::chars_of(n.as_str());
                if crate::text::first_is(&nc, '/') {
                    out.icon_path = Some(n.clone());
                }
            },
            None => {},
        }
    }
    out
}

fn better_of(a: Option<u32>, b: Option<u32>) -> (r: Option<u32>)
    ensures
        r == better(a, b),
{
    match (a, b) {
        (Some(x), Some(y)) => Some(if x >= y { x } else { y }),
        (Some(x), None) => Some(x),
        (None, y) => y,
    }
}

/// Scores each application by its name and its description.
pub fn score_entries(query: &str, entries: &Vec<AppEntry>) -> (r: Vec<Option<u32>>)
    requires
        forall|i: int| 0 <= i < entries@.len() ==> entry_fits(#[trigger] entries@[i]@),
    ensures
        r@ == entry_scores(query@, entries@.map_values(|e: AppEntry| e@)),
{
    let fits = query_fits(query);
    let mut matcher = new_matcher();
    let mut out: Vec<Option<u32>> = Vec::new();
    let mut i: usize = 0;
    while i < entries.len()
        invariant
            i <= entries@.len(),
            fits == query_scored(query@),
            forall|j: int| 0 <= j < entries@.len() ==> entry_fits(#[trigger] entries@[j]@),
            out@.len() == i,
            forall|j: int| 0 <= j < i ==> #[trigger] out@[j] == entry_score(query@, entries@[j]@),
        decreases entries@.len() - i,
    {
        let e = &entries[i];
        assert(entry_fits(entries@[i as int]@));
        let by_name = if fits {
            score_text(&mut matcher, query, e.name.as_str())
        } else {
            None
        };
        let by_description = match &e.description {
            Some(d) => if fits {
                score_text(&mut matcher, query, d.as_str())
            } else {
                None
            },
            None => None,
        };
        out.push(better_of(by_name, by_description));
        i += 1;
    }
    assert(out@ =~= entry_scores(query@, entries@.map_values(|e: AppEntry| e@)));
    out
}

/// Runs the launcher's fuzzy search over the application entries.
pub fn launcher_matches(query: &str, entries: &Vec<AppEntry>) -> (r: Vec<(AppEntry, u32)>)
    requires
        query@.len() > 0 ==> forall|i: int| 0 <= i < entries@.len() ==> entry_fits(#[trigger] entries@[i]@),
    ensures
        app_hits(r@) == launcher_results(query@, entries@.map_values(|e: AppEntry| e@)),
{
    let ghost es = entries@.map_values(|e: AppEntry| e@);
    if query.is_empty() {
        let r: Vec<(AppEntry, u32)> = Vec::new();
        assert(app_hits(r@) =~= Seq::<(AppEntryView, u32)>::empty());
        return r;
    }
    let scores = score_entries(query, entries);
    let mut shown: Vec<bool> = Vec::new();
    let mut i: usize = 0;
    while i < entries.len()
        invariant
            i <= entries@.len(),
            shown@.len() == i,
            forall|j: int| 0 <= j < i ==> (#[trigger] shown@[j]),
        decreases entries@.len() - i,
    {
        shown.push(true);
        i += 1;
    }
    proof {
        assert(shown@ =~= Seq::new(es.len(), |i: int| true));
    }
    let hits = rank_scores(&scores, &shown);
    let ghost best = best_matches(entry_scores(query@, es), Seq::new(es.len(), |i: int| true));
    let mut out: Vec<(AppEntry, u32)> = Vec::new();
    let mut k: usize = 0;
    while k < hits.len()
        invariant
            k <= hits@.len() == best.len(),
            forall|j: int| 0 <= j < hits@.len() ==> #[trigger] hits@[j] == key_hit(best[j]),
            forall|j: int| 0 <= j < hits@.len() ==> (#[trigger] hits@[j]).0 < entries@.len(),
            es == entries@.map_values(|e: AppEntry| e@),
            out@.len() == k,
            forall|j: int| 0 <= j < k ==> (#[trigger] out@[j]).0@ == with_direct_icon(es[best[j].2 as int]) && out@[j].1 == key_hit(best[j]).1,
        decreases hits@.len() - k,
    {
        let (pos, sc) = hits[k];
        let e = direct_icon(&entries[pos]);
        out.push((e, sc));
        k += 1;
    }
    proof {
        assert(app_hits(out@) =~= launcher_results(query@, es));
    }
    out
}

// ---------------------------------------------------------------------------
// File browser results
// ---------------------------------------------------------------------------

/// Dotfiles are hidden unless the filter itself starts with a dot.
pub open spec fn file_shown(name: Chars, filter: Chars) -> bool {
    !(name.len() > 0 && name[0] == '.') || (filter.len() > 0 && filter[0] == '.')
}

/// The entries that `file_shown` keeps, in their order.
pub open spec fn visible_files(entries: Seq<FileEntryView>, filter: Chars) -> Seq<FileEntryView>
    decreases entries.len(),
{
    if entries.len() == 0 {
        Seq::empty()
    } else {
        let rest = visible_files(entries.drop_last(), filter);
        if file_shown(entries.last().name, filter) {
            rest.push(entries.last())
        } else {
            rest
        }
    }
}

/// The file browser's results for a filter: with an empty filter, the first
/// `RESULT_LIMIT` shown entries, each scored 1; otherwise the best fuzzy matches among
/// the shown entries, each with its score.
pub open spec fn file_results(filter: Chars, entries: Seq<FileEntryView>) -> Seq<(FileEntryView, u32)> {
    if filter.len() == 0 {
        let shown = visible_files(entries, filter);
        let top = if shown.len() <= RESULT_LIMIT {
            shown
        } else {
            shown.take(RESULT_LIMIT as int)
        };
        top.map_values(|e: FileEntryView| (e, 1u32))
    } else {
        let names = entries.map_values(|e: FileEntryView| e.name);
        let flags = entries.map_values(|e: FileEntryView| file_shown(e.name, filter));
        best_matches(name_scores(filter, names), flags).map_values(
            |k: KeyView| (entries[k.2 as int], key_hit(k).1),
        )
    }
}

/// Runs the file browser's search over the listed entries of a directory.
pub fn file_matches(filter: &str, entries: &Vec<FileEntry>) -> (r: Vec<(FileEntry, u32)>)
    requires
        filter@.len() > 0 ==> forall|i: int| 0 <= i < entries@.len() ==> (#[trigger] entries@[i]).name@.len() <= u32::MAX,
    ensures
        file_hits(r@) == file_results(filter@, entries@.map_values(|e: FileEntry| e@)),
{
    let ghost es = entries@.map_values(|e: FileEntry| e@);
    let fc = crate::text::chars_of(filter);
    let dot_filter = crate::text::first_is(&fc, '.');
    if filter.is_empty() {
        let mut shown: Vec<(FileEntry, u32)> = Vec::new();
        let mut i: usize = 0;
        while i < entries.len()
            invariant
                i <= entries@.len(),
                es == entries@.map_values(|e: FileEntry| e@),
                filter@.len() == 0,
                dot_filter == (filter@.len() > 0 && filter@[0] == '.'),
                file_hits(shown@) == visible_files(es.take(i as int), filter@).map_values(|e: FileEntryView| (e, 1u32)),
            decreases entries@.len() - i,
        {
            proof {
                assert(es.take(i + 1).drop_last() =~= es.take(i as int));
                assert(es.take(i + 1).last() == entries@[i as int]@);
            }
            let nc = crate::text::chars_of(entries[i].name.as_str());
            let ghost before = file_hits(shown@);
            if !crate::text::first_is(&nc, '.') || dot_filter {
                shown.push((entries[i].duplicate(), 1));
                proof {
                    assert(file_hits(shown@) =~= before.push((entries@[i as int]@, 1u32)));
                    assert(visible_files(es.take(i + 1), filter@) == visible_files(es.take(i as int), filter@).push(entries@[i as int]@));
                    assert(visible_files(es.take(i + 1), filter@).map_values(|e: FileEntryView| (e, 1u32)) =~= visible_files(es.take(i as int), filter@).map_values(|e: FileEntryView| (e, 1u32)).push((entries@[i as int]@, 1u32)));
                }
            }
            i += 1;
        }
        proof {
            assert(es.take(entries@.len() as int) =~= es);
        }
        let mut out: Vec<(FileEntry, u32)> = Vec::new();
        let mut k: usize = 0;
        while k < shown.len() && k < RESULT_LIMIT
            invariant
                k <= shown@.len(),
                k <= RESULT_LIMIT,
                forall|j: int| 0 <= j < k ==> #[trigger] file_hits(out@)[j] == file_hits(shown@)[j],
                file_hits(out@).len() == k,
            decreases shown@.len() - k,
        {
            let ghost before = file_hits(out@);
            out.push((shown[k].0.duplicate(), shown[k].1));
            proof {
                assert(file_hits(out@) =~= before.push(file_hits(shown@)[k as int]));
            }
            k += 1;
        }
        proof {
            let v = visible_files(es, filter@);
            let full = v.map_values(|e: FileEntryView| (e, 1u32));
            if v.len() <= RESULT_LIMIT {
                assert(file_hits(out@) =~= full);
            } else {
                assert(file_hits(out@) =~= v.take(RESULT_LIMIT as int).map_values(|e: FileEntryView| (e, 1u32)));
            }
        }
        return out;
    }
    let mut names: Vec<String> = Vec::new();
    let mut flags: Vec<bool> = Vec::new();
    let mut i: usize = 0;
    while i < entries.len()
        invariant
            i <= entries@.len(),
            names@.len() == i,
            flags@.len() == i,
            dot_filter == (filter@.len() > 0 && filter@[0] == '.'),
            forall|j: int| 0 <= j < i ==> (#[trigger] names@[j])@ == entries@[j].name@,
            forall|j: int| 0 <= j < i ==> (#[trigger] flags@[j]) == file_shown(entries@[j].name@, filter@),
        decreases entries@.len() - i,
    {
        let nc = crate::text::chars_of(entries[i].name.as_str());
        names.push(entries[i].name.clone());
        flags.push(!crate::text::first_is(&nc, '.') || dot_filter);
        i += 1;
    }
    proof {
        assert(names@.map_values(|s: String| s@) =~= es.map_values(|e: FileEntryView| e.name));
        assert(flags@ =~= es.map_values(|e: FileEntryView| file_shown(e.name, filter@)));
    }
    let hits = rank_names(filter, &names, &flags);
    let ghost best = best_matches(name_scores(filter@, es.map_values(|e: FileEntryView| e.name)), es.map_values(|e: FileEntryView| file_shown(e.name, filter@)));
    let mut out: Vec<(FileEntry, u32)> = Vec::new();
    let mut k: usize = 0;
    while k < hits.len()
        invariant
            k <= hits@.len() == best.len(),
            forall|j: int| 0 <= j < hits@.len() ==> #[trigger] hits@[j] == key_hit(best[j]),
            forall|j: int| 0 <= j < hits@.len() ==> (#[trigger] hits@[j]).0 < entries@.len(),
            es == entries@.map_values(|e: FileEntry| e@),
            out@.len() == k,
            forall|j: int| 0 <= j < k ==> (#[trigger] out@[j]).0@ == es[best[j].2 as int] && out@[j].1 == key_hit(best[j]).1,
        decreases hits@.len() - k,
    {
        let (pos, sc) = hits[k];
        out.push((entries[pos].duplicate(), sc));
        k += 1;
    }
    proof {
        assert(file_hits(out@) =~= file_results(filter@, es));
    }
    out
}

} // verus!
