//! Ordering by a key, highest first and stable among equal keys, and what
//! is built on it: the ranking of file-search hits and the recent-actions
//! history.
use crate::domain::Action;
use crate::text::strings_view;
use vstd::prelude::*;

verus! {

/// Where `key` goes in a list sorted highest first: after every item whose
/// key is at least `key`.
pub open spec fn insert_point<T>(sorted: Seq<(T, i128)>, key: i128, j: int) -> int
    decreases sorted.len() - j,
{
    if j >= sorted.len() {
        sorted.len() as int
    } else if sorted[j].1 < key {
        j
    } else {
        insert_point(sorted, key, j + 1)
    }
}

proof fn lemma_insert_point_bounds<T>(sorted: Seq<(T, i128)>, key: i128, j: int)
    requires
        0 <= j <= sorted.len(),
    ensures
        j <= insert_point(sorted, key, j) <= sorted.len(),
    decreases sorted.len() - j,
{
    if j < sorted.len() && sorted[j].1 >= key {
        lemma_insert_point_bounds(sorted, key, j + 1);
    }
}

/// The items ordered by key, highest first; items of equal key keep their
/// order (insertion sort, item by item).
pub open spec fn sort_desc<T>(s: Seq<(T, i128)>) -> Seq<(T, i128)>
    decreases s.len(),
{
    if s.len() == 0 {
        s
    } else {
        let sorted = sort_desc(s.drop_last());
        sorted.insert(insert_point(sorted, s.last().1, 0), s.last())
    }
}

proof fn lemma_sort_desc_len<T>(s: Seq<(T, i128)>)
    ensures
        sort_desc(s).len() == s.len(),
    decreases s.len(),
{
    if s.len() > 0 {
        lemma_sort_desc_len(s.drop_last());
        lemma_insert_point_bounds(sort_desc(s.drop_last()), s.last().1, 0);
    }
}

/// Orders the items by key, highest first, keeping the order of items with
/// equal keys.
pub fn sort_by_key_desc<T>(items: Vec<(T, i128)>) -> (r: Vec<(T, i128)>)
    ensures
        r@ == sort_desc(items@),
{
    let ghost orig = items@;
    let n = items.len();
    let mut rest = items;
    let mut sorted: Vec<(T, i128)> = Vec::new();
    let mut i: usize = 0;
    while rest.len() > 0
        invariant
            n == orig.len(),
            i <= n,
            rest@ == orig.subrange(i as int, n as int),
            sorted@ == sort_desc(orig.subrange(0, i as int)),
        decreases rest@.len(),
    {
        proof {
            lemma_sort_desc_len(orig.subrange(0, i as int));
        }
        let x = rest.remove(0);
        let key = x.1;
        let mut k: usize = 0;
        while k < sorted.len() && sorted[k].1 >= key
            invariant
                k <= sorted@.len(),
                insert_point(sorted@, key, 0) == insert_point(sorted@, key, k as int),
            decreases sorted@.len() - k,
        {
            k += 1;
        }
        assert(orig.subrange(0, i + 1).drop_last() == orig.subrange(0, i as int));
        assert(orig.subrange(0, i + 1).last() == x);
        sorted.insert(k, x);
        assert(rest@ =~= orig.subrange(i + 1, n as int));
        i += 1;
    }
    assert(orig.subrange(0, n as int) == orig);
    sorted
}

/// The first `limit` paths of the hits, best score first, ties in the order
/// found.
pub open spec fn ranked(hits: Seq<(String, i128)>, limit: nat) -> Seq<Seq<char>> {
    let sorted = sort_desc(hits);
    let k = if limit < sorted.len() {
        limit
    } else {
        sorted.len()
    };
    sorted.subrange(0, k as int).map_values(|h: (String, i128)| h.0@)
}

/// Ranks file-search hits, each a path and its score: the best `limit`
/// paths, best first, ties in the order found.
pub fn rank_matches(hits: Vec<(String, i128)>, limit: usize) -> (r: Vec<String>)
    ensures
        strings_view(r@) == ranked(hits@, limit as nat),
{
    let sorted = sort_by_key_desc(hits);
    let k = if limit < sorted.len() {
        limit
    } else {
        sorted.len()
    };
    let mut out: Vec<String> = Vec::new();
    let mut i: usize = 0;
    while i < k
        invariant
            k <= sorted@.len(),
            i <= k,
            strings_view(out@) == sorted@.subrange(0, i as int).map_values(
                |h: (String, i128)| h.0@,
            ),
        decreases k - i,
    {
        let p = sorted[i].0.clone();
        out.push(p);
        assert(strings_view(out@) == strings_view(out@.drop_last()).push(sorted@[i as int].0@));
        assert(sorted@.subrange(0, i + 1).map_values(|h: (String, i128)| h.0@) =~= sorted@.subrange(
            0,
            i as int,
        ).map_values(|h: (String, i128)| h.0@).push(sorted@[i as int].0@));
        i += 1;
    }
    out
}

/// A store of the actions the user took.
pub trait HistoryRepository {
    fn get_recent(&self, limit: usize) -> Result<Vec<Action>, String>;

    fn record(&self, action: Action) -> Result<(), String>;

    fn clear(&self) -> Result<(), String>;
}

/// The most actions the history keeps.
pub const HISTORY_LIMIT: usize = 100;

/// Where `id` stands in the history, if it does.
pub fn position_of(history: &Vec<Action>, id: &String) -> (r: Option<usize>)
    ensures
        r matches Some(i) ==> i < history@.len() && history@[i as int].id@ == id@ && forall|j: int|
            0 <= j < i ==> history@[j].id@ != id@,
        r is None ==> forall|j: int| 0 <= j < history@.len() ==> history@[j].id@ != id@,
{
    let mut i: usize = 0;
    while i < history.len()
        invariant
            i <= history@.len(),
            forall|j: int| 0 <= j < i ==> history@[j].id@ != id@,
        decreases history@.len() - i,
    {
        if history[i].id == *id {
            return Some(i);
        }
        i += 1;
    }
    None
}

/// An action seen again: its time and frequency advance, its name and
/// content follow the new record, and its icon too where the new one has an
/// icon.
pub open spec fn revisited(old: Action, new: Action) -> Action {
    Action {
        last_accessed: new.last_accessed,
        frequency: if old.frequency == u64::MAX {
            old.frequency
        } else {
            (old.frequency + 1) as u64
        },
        name: new.name,
        content: new.content,
        icon: if new.icon is Some {
            new.icon
        } else {
            old.icon
        },
        ..old
    }
}

/// Records an action: an action with the same id is updated in place, a
/// new one is appended with frequency 1. Beyond the limit, the history is
/// ordered by last access, newest first, and cut to the limit.
pub fn record_action(history: &mut Vec<Action>, action: Action)
    ensures
        position_spec(old(history)@, action.id@) matches Some(i) ==> final(history)@ == (if old(
            history,
        )@.len() > HISTORY_LIMIT {
            cut_history(old(history)@.update(i, revisited(old(history)@[i], action)))
        } else {
            old(history)@.update(i, revisited(old(history)@[i], action))
        }),
        position_spec(old(history)@, action.id@) is None ==> final(history)@ == ({
            let added = old(history)@.push(Action { frequency: 1, ..action });
            if added.len() > HISTORY_LIMIT {
                cut_history(added)
            } else {
                added
            }
        }),
{
    match position_of(history, &action.id) {
        Some(i) => {
            let old_entry = history.remove(i);
            let frequency = if old_entry.frequency == u64::MAX {
                old_entry.frequency
            } else {
                old_entry.frequency + 1
            };
            let icon = if action.icon.is_some() {
                action.icon
            } else {
                old_entry.icon
            };
            let updated = Action {
                id: old_entry.id,
                kind: old_entry.kind,
                content: action.content,
                name: action.name,
                icon,
                last_accessed: action.last_accessed,
                frequency,
            };
            history.insert(i, updated);
            assert(history@ =~= old(history)@.update(i as int, revisited(old(history)@[i as int], action)));
        },
        None => {
            let added = Action { frequency: 1, ..action };
            history.push(added);
        },
    }
    if history.len() > HISTORY_LIMIT {
        let mut taken: Vec<Action> = Vec::new();
        std::mem::swap(history, &mut taken);
        let cut = newest_first_cut(taken);
        *history = cut;
    }
}

/// The position of `id` in the history.
pub open spec fn position_spec(h: Seq<Action>, id: Seq<char>) -> Option<int> {
    if exists|i: int| 0 <= i < h.len() && h[i].id@ == id {
        Some(choose|i: int| 0 <= i < h.len() && h[i].id@ == id && forall|j: int| 0 <= j < i ==> h[j].id@ != id)
    } else {
        None
    }
}

pub open spec fn keyed_by_access(h: Seq<Action>) -> Seq<(Action, i128)> {
    h.map_values(|a: Action| (a, a.last_accessed as i128))
}

pub open spec fn unkeyed(s: Seq<(Action, i128)>) -> Seq<Action> {
    s.map_values(|p: (Action, i128)| p.0)
}

/// The history ordered newest first and cut to the limit.
pub open spec fn cut_history(h: Seq<Action>) -> Seq<Action> {
    let sorted = unkeyed(sort_desc(keyed_by_access(h)));
    if sorted.len() > HISTORY_LIMIT {
        sorted.subrange(0, HISTORY_LIMIT as int)
    } else {
        sorted
    }
}

/// The `limit` most recent actions, newest first.
pub open spec fn recent(h: Seq<Action>, limit: nat) -> Seq<Action> {
    let sorted = unkeyed(sort_desc(keyed_by_access(h)));
    if sorted.len() > limit {
        sorted.subrange(0, limit as int)
    } else {
        sorted
    }
}

fn newest_first(history: Vec<Action>) -> (r: Vec<Action>)
    ensures
        r@ == unkeyed(sort_desc(keyed_by_access(history@))),
{
    let mut keyed: Vec<(Action, i128)> = Vec::new();
    let ghost orig = history@;
    let n = history.len();
    let mut rest = history;
    let mut i: usize = 0;
    while rest.len() > 0
        invariant
            n == orig.len(),
            i <= n,
            rest@ == orig.subrange(i as int, n as int),
            keyed@ == keyed_by_access(orig.subrange(0, i as int)),
        decreases rest@.len(),
    {
        let a = rest.remove(0);
        let key = a.last_accessed as i128;
        keyed.push((a, key));
        assert(keyed@ =~= keyed_by_access(orig.subrange(0, i + 1)));
        assert(rest@ =~= orig.subrange(i + 1, n as int));
        i += 1;
    }
    assert(orig.subrange(0, n as int) == orig);
    let sorted = sort_by_key_desc(keyed);
    let ghost sv = sorted@;
    let mut out: Vec<Action> = Vec::new();
    let mut sorted = sorted;
    let m = sorted.len();
    let mut j: usize = 0;
    while sorted.len() > 0
        invariant
            m == sv.len(),
            j <= m,
            sorted@ == sv.subrange(j as int, m as int),
            out@ == unkeyed(sv.subrange(0, j as int)),
        decreases sorted@.len(),
    {
        let p = sorted.remove(0);
        out.push(p.0);
        assert(out@ =~= unkeyed(sv.subrange(0, j + 1)));
        assert(sorted@ =~= sv.subrange(j + 1, m as int));
        j += 1;
    }
    assert(sv.subrange(0, m as int) == sv);
    out
}

fn newest_first_cut(history: Vec<Action>) -> (r: Vec<Action>)
    ensures
        r@ == cut_history(history@),
{
    let mut sorted = newest_first(history);
    if sorted.len() > HISTORY_LIMIT {
        sorted.truncate(HISTORY_LIMIT);
    }
    sorted
}

/// The `limit` most recent actions of the history, newest first; equal
/// times keep their order.
pub fn get_recent(history: &Vec<Action>, limit: usize) -> (r: Vec<Action>)
    ensures
        r@ == recent(history@, limit as nat),
{
    let mut copy: Vec<Action> = Vec::new();
    let mut i: usize = 0;
    while i < history.len()
        invariant
            i <= history@.len(),
            copy@ == history@.subrange(0, i as int),
        decreases history@.len() - i,
    {
        copy.push(history[i].clone());
        assert(copy@ =~= history@.subrange(0, i + 1));
        i += 1;
    }
    assert(history@.subrange(0, history@.len() as int) == history@);
    let mut sorted = newest_first(copy);
    if sorted.len() > limit {
        sorted.truncate(limit);
    }
    sorted
}

} // verus!
