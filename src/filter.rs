//! Filters that narrow a sequence of events by the value under one key.

use vstd::prelude::*;
use vstd::pervasive::VecAdditionalExecFns;
use crate::json::{JsonValue, json_eq, json_equal};
use crate::model::{Event, lookup};
use crate::pattern::{ValuePattern, regex_finds};

verus! {

/// What the value filter does on reaching an event that lacks the key.
#[derive(Debug, Clone, Copy, PartialEq, Eq, Structural)]
pub enum MissingKey {
    /// Leave the event out and go on with the next one.
    Skip,
    /// Stop: no later event is kept either.
    Halt,
}

/// The event's payload holds `key`.
pub open spec fn has_key(e: Event, key: Seq<char>) -> bool {
    lookup(e.data@, key) is Some
}

/// The value under `key` is deeply equal to one of `vals`.
pub open spec fn value_in(e: Event, key: Seq<char>, vals: Seq<JsonValue>) -> bool {
    match lookup(e.data@, key) {
        Some(v) => exists|i: int| 0 <= i < vals.len() && json_eq(#[trigger] vals[i], v),
        None => false,
    }
}

pub open spec fn keeps_values(key: Seq<char>, vals: Seq<JsonValue>) -> spec_fn(Event) -> bool {
    |e: Event| value_in(e, key, vals)
}

/// Index of the first event that lacks `key`, or the length when every
/// event has it.
pub open spec fn first_missing(events: Seq<Event>, key: Seq<char>) -> int
    decreases events.len(),
{
    if events.len() == 0 {
        0
    } else {
        let p = first_missing(events.drop_last(), key);
        if p < events.len() - 1 {
            p
        } else if has_key(events.last(), key) {
            events.len() as int
        } else {
            events.len() - 1
        }
    }
}

/// How many leading events the value filter looks at.
pub open spec fn scan_end(events: Seq<Event>, key: Seq<char>, missing: MissingKey) -> int {
    match missing {
        MissingKey::Skip => events.len() as int,
        MissingKey::Halt => first_missing(events, key),
    }
}

/// The events that the value filter keeps, in their order.
pub open spec fn kept_by_values(
    events: Seq<Event>,
    key: Seq<char>,
    vals: Seq<JsonValue>,
    missing: MissingKey,
) -> Seq<Event> {
    events.take(scan_end(events, key, missing)).filter(keeps_values(key, vals))
}

proof fn lemma_first_missing_bounds(events: Seq<Event>, key: Seq<char>)
    ensures
        0 <= first_missing(events, key) <= events.len(),
        forall|j: int| 0 <= j < first_missing(events, key) ==> has_key(#[trigger] events[j], key),
        first_missing(events, key) < events.len() ==> !has_key(
            events[first_missing(events, key)],
            key,
        ),
    decreases events.len(),
{
    if events.len() > 0 {
        let s = events.drop_last();
        lemma_first_missing_bounds(s, key);
        assert forall|j: int| 0 <= j < first_missing(events, key) implies has_key(
            #[trigger] events[j],
            key,
        ) by {
            if j < s.len() {
                assert(s[j] == events[j]);
            }
        }
    }
}

proof fn lemma_first_missing_prefix(events: Seq<Event>, key: Seq<char>, k: int)
    requires
        0 <= k <= events.len(),
        first_missing(events.take(k), key) < k,
    ensures
        first_missing(events, key) == first_missing(events.take(k), key),
    decreases events.len(),
{
    if k < events.len() {
        assert(events.drop_last().take(k) =~= events.take(k));
        lemma_first_missing_prefix(events.drop_last(), key, k);
        lemma_first_missing_bounds(events.drop_last(), key);
    } else {
        assert(events.take(k) =~= events);
    }
}

fn placeholder() -> (r: Event) {
    Event { id: None, timestamp: 0, duration: 0, data: Vec::new() }
}

fn value_among(v: &JsonValue, vals: &[JsonValue]) -> (r: bool)
    ensures
        r == exists|i: int| 0 <= i < vals@.len() && json_eq(#[trigger] vals@[i], *v),
{
    let mut i: usize = 0;
    while i < vals.len()
        invariant
            i <= vals@.len(),
            forall|j: int| 0 <= j < i ==> !json_eq(#[trigger] vals@[j], *v),
        decreases vals@.len() - i,
    {
        if json_equal(&vals[i], v) {
            return true;
        }
        i += 1;
    }
    false
}

/// Keeps the events whose value under `key` equals one of `vals`, in
/// their order. An event that lacks the key is left out; with
/// `MissingKey::Halt` it also ends the scan.
pub fn filter_keyvals_with(
    events: Vec<Event>,
    key: &str,
    vals: &[JsonValue],
    missing: MissingKey,
) -> (r: Vec<Event>)
    ensures
        r@ == kept_by_values(events@, key@, vals@, missing),
{
    let ghost orig = events@;
    let ghost pred = keeps_values(key@, vals@);
    let key = key.to_owned();
    let mut events = events;
    let mut kept: Vec<Event> = Vec::new();
    let mut i: usize = 0;
    assert(orig.take(0) =~= Seq::<Event>::empty());
    assert(orig.take(orig.len() as int) =~= orig);
    proof {
        reveal(Seq::filter);
    }
    while i < events.len()
        invariant
            i <= events@.len() == orig.len(),
            forall|j: int| i <= j < orig.len() ==> #[trigger] events@[j] == orig[j],
            kept@ == orig.take(i as int).filter(pred),
            pred == keeps_values(key@, vals@),
            orig.take(orig.len() as int) == orig,
            missing == MissingKey::Halt ==> first_missing(orig.take(i as int), key@) == i,
        ensures
            kept@ == kept_by_values(orig, key@, vals@, missing),
        decreases events@.len() - i,
    {
        assert(orig.take(i + 1).drop_last() =~= orig.take(i as int));
        assert(orig.take(i + 1).last() == orig[i as int]);
        assert(events@[i as int] == orig[i as int]);
        let keep = match events[i].get(&key) {
            Some(v) => value_among(v, vals),
            None => {
                if missing == MissingKey::Halt {
                    proof {
                        lemma_first_missing_prefix(orig, key@, i + 1);
                    }
                    assert(first_missing(orig.take(i + 1), key@) == i);
                    assert(first_missing(orig, key@) == i);
                    assert(scan_end(orig, key@, missing) == i);
                    assert(kept@ == kept_by_values(orig, key@, vals@, missing));
                    break;
                }
                false
            },
        };
        assert(keep == pred(orig[i as int]));
        proof {
            reveal(Seq::filter);
        }
        assert(orig.take(i + 1).filter(pred) == if pred(orig[i as int]) {
            orig.take(i as int).filter(pred).push(orig[i as int])
        } else {
            orig.take(i as int).filter(pred)
        });
        if keep {
            let mut taken = placeholder();
            events.set_and_swap(i, &mut taken);
            kept.push(taken);
        }
        i += 1;
    }
    kept
}

/// Keeps the events whose value under `key` equals one of `vals`, in their
/// order, stopping at the first event that lacks the key.
pub fn filter_keyvals(events: Vec<Event>, key: &str, vals: &[JsonValue]) -> (r: Vec<Event>)
    ensures
        r@ == kept_by_values(events@, key@, vals@, MissingKey::Halt),
{
    filter_keyvals_with(events, key, vals, MissingKey::Halt)
}

/// Why the pattern filter could not be applied.
#[derive(Debug, Clone, Copy, PartialEq, Eq, Structural)]
pub enum FilterError {
    /// An event holds the key with a value that is not a string.
    NotAString,
}

/// The event's value under `key` is a string in which `pattern` matches.
pub open spec fn text_found(e: Event, key: Seq<char>, pattern: Seq<char>) -> bool {
    match lookup(e.data@, key) {
        Some(JsonValue::Str(s)) => regex_finds(pattern, s@),
        _ => false,
    }
}

pub open spec fn keeps_text(key: Seq<char>, pattern: Seq<char>) -> spec_fn(Event) -> bool {
    |e: Event| text_found(e, key, pattern)
}

/// The event holds `key` with a value that is not a string.
pub open spec fn non_string_at(e: Event, key: Seq<char>) -> bool {
    match lookup(e.data@, key) {
        Some(v) => !(v is Str),
        None => false,
    }
}

/// Some event holds `key` with a value that is not a string.
pub open spec fn any_non_string(events: Seq<Event>, key: Seq<char>) -> bool {
    exists|i: int| 0 <= i < events.len() && non_string_at(#[trigger] events[i], key)
}

/// Keeps the events whose value under `key` is a string that `pattern`
/// matches somewhere, in their order. Events that lack the key are left
/// out. Fails when some event holds the key with a non-string value.
pub fn filter_keyvals_regex(events: Vec<Event>, key: &str, pattern: &ValuePattern) -> (r: Result<
    Vec<Event>,
    FilterError,
>)
    ensures
        match r {
            Ok(kept) => !any_non_string(events@, key@) && kept@ == events@.filter(
                keeps_text(key@, pattern.pattern()),
            ),
            Err(e) => e == FilterError::NotAString && any_non_string(events@, key@),
        },
{
    let ghost orig = events@;
    let ghost pred = keeps_text(key@, pattern.pattern());
    let key = key.to_owned();
    let mut events = events;
    let mut kept: Vec<Event> = Vec::new();
    let mut i: usize = 0;
    let mut failed = false;
    assert(orig.take(0) =~= Seq::<Event>::empty());
    assert(orig.take(orig.len() as int) =~= orig);
    proof {
        reveal(Seq::filter);
    }
    while i < events.len()
        invariant_except_break
            !failed,
        invariant
            i <= events@.len() == orig.len(),
            forall|j: int| i <= j < orig.len() ==> #[trigger] events@[j] == orig[j],
            kept@ == orig.take(i as int).filter(pred),
            pred == keeps_text(key@, pattern.pattern()),
            orig.take(orig.len() as int) == orig,
            forall|j: int| 0 <= j < i ==> !non_string_at(#[trigger] orig[j], key@),
        ensures
            failed ==> any_non_string(orig, key@),
            !failed ==> i == orig.len(),
            !failed ==> kept@ == orig.take(i as int).filter(pred),
            !failed ==> forall|j: int| 0 <= j < i ==> !non_string_at(#[trigger] orig[j], key@),
        decreases events@.len() - i,
    {
        assert(orig.take(i + 1).drop_last() =~= orig.take(i as int));
        assert(orig.take(i + 1).last() == orig[i as int]);
        assert(events@[i as int] == orig[i as int]);
        let keep = match events[i].get(&key) {
            Some(JsonValue::Str(text)) => pattern.is_match(text.as_str()),
            Some(_) => {
                assert(non_string_at(orig[i as int], key@));
                assert(any_non_string(orig, key@));
                failed = true;
                break;
            },
            None => false,
        };
        assert(!non_string_at(orig[i as int], key@));
        assert(keep == pred(orig[i as int]));
        proof {
            reveal(Seq::filter);
        }
        if keep {
            let mut taken = placeholder();
            events.set_and_swap(i, &mut taken);
            kept.push(taken);
        }
        i += 1;
    }
    if failed {
        return Err(FilterError::NotAString);
    }
    Ok(kept)
}

/// The event's value under `key` is deeply equal to `v`.
pub open spec fn equals_value(key: Seq<char>, v: JsonValue) -> spec_fn(Event) -> bool {
    |e: Event|
        match lookup(e.data@, key) {
            Some(x) => json_eq(v, x),
            None => false,
        }
}

/// With one candidate value `v`, the value filter returns exactly the
/// scanned events whose value under `key` equals `v`, in their order. With
/// `MissingKey::Skip` every event is scanned; with `MissingKey::Halt` the
/// scan ends before the first event that lacks the key.
pub proof fn lemma_single_candidate(
    events: Seq<Event>,
    key: Seq<char>,
    v: JsonValue,
    missing: MissingKey,
)
    ensures
        kept_by_values(events, key, seq![v], missing) == events.take(
            scan_end(events, key, missing),
        ).filter(equals_value(key, v)),
        missing == MissingKey::Skip ==> kept_by_values(events, key, seq![v], missing)
            == events.filter(equals_value(key, v)),
        missing == MissingKey::Halt ==> kept_by_values(events, key, seq![v], missing)
            == events.take(first_missing(events, key)).filter(equals_value(key, v)),
{
    let p = keeps_values(key, seq![v]);
    let q = equals_value(key, v);
    assert forall|e: Event| #[trigger] p(e) == q(e) by {
        if let Some(x) = lookup(e.data@, key) {
            if q(e) {
                assert(json_eq(seq![v][0], x));
            }
        }
    }
    assert(p =~= q);
    assert(events.take(events.len() as int) =~= events);
}

/// The pattern filter leaves out an event `e` that lacks the key and goes
/// on with the events after it: on `before + [e] + after` it keeps what it
/// keeps of `before` followed by what it keeps of `after`, and it fails
/// exactly when it fails on `before` or on `after`.
pub proof fn lemma_regex_skips_missing(
    before: Seq<Event>,
    e: Event,
    after: Seq<Event>,
    key: Seq<char>,
    pattern: Seq<char>,
)
    requires
        !has_key(e, key),
    ensures
        (before + seq![e] + after).filter(keeps_text(key, pattern)) == before.filter(
            keeps_text(key, pattern),
        ) + after.filter(keeps_text(key, pattern)),
        any_non_string(before + seq![e] + after, key) == (any_non_string(before, key)
            || any_non_string(after, key)),
{
    let p = keeps_text(key, pattern);
    let all = before + seq![e] + after;
    Seq::filter_distributes_over_add(before + seq![e], after, p);
    Seq::filter_distributes_over_add(before, seq![e], p);
    reveal(Seq::filter);
    assert(seq![e].drop_last() =~= Seq::<Event>::empty());
    assert(Seq::<Event>::empty().filter(p) == Seq::<Event>::empty());
    assert(seq![e].last() == e);
    assert(!p(e));
    assert(seq![e].filter(p) =~= Seq::<Event>::empty());
    assert(before.filter(p) + Seq::<Event>::empty() =~= before.filter(p));
    let n = before.len() as int;
    if any_non_string(all, key) {
        let i = choose|i: int| 0 <= i < all.len() && non_string_at(#[trigger] all[i], key);
        if i < n {
            assert(all[i] == before[i]);
        } else if i == n {
            assert(all[i] == e);
        } else {
            assert(all[i] == after[i - n - 1]);
        }
    }
    if any_non_string(before, key) {
        let i = choose|i: int| 0 <= i < before.len() && non_string_at(#[trigger] before[i], key);
        assert(all[i] == before[i]);
    }
    if any_non_string(after, key) {
        let i = choose|i: int| 0 <= i < after.len() && non_string_at(#[trigger] after[i], key);
        assert(all[i + n + 1] == after[i]);
    }
}

} // verus!
