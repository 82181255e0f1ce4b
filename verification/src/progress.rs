//! The persisted progress record.
//!
//! The record keeps the completed set in first-completion order, the
//! current exercise pointer, per-exercise hint tallies, and two
//! timestamps.  The hint tallies are an association list with unique
//! keys; timestamps enter as explicit epoch-second readings and are
//! stored rendered.

use vstd::prelude::*;
use crate::text::{dec_string, spec_dec, str_eq};

verus! {

/// The progress record format version this library writes.
pub const PROGRESS_VERSION: u32 = 1;

/// Persisted progress data.
#[derive(Debug)]
pub struct ProgressFile {
    pub version: u32,
    /// Completed exercise names, in first-completion order.
    pub completed: Vec<String>,
    /// The current exercise's name, once one has been saved.
    pub current: Option<String>,
    /// Hint tallies per exercise name; keys are unique.
    pub hints_used: Vec<(String, u32)>,
    pub started_at: Option<String>,
    pub last_activity: Option<String>,
}

/// Whether `name` is among the completed names.
pub open spec fn spec_completed_contains(completed: Seq<Seq<char>>, name: Seq<char>) -> bool {
    exists|i: int| 0 <= i < completed.len() && completed[i] == name
}

/// Marking a name completed: a no-op when it is already present,
/// otherwise an append, so first-completion order is preserved.
pub open spec fn spec_mark(completed: Seq<Seq<char>>, name: Seq<char>) -> Seq<Seq<char>> {
    if spec_completed_contains(completed, name) {
        completed
    } else {
        completed.push(name)
    }
}

/// Marking an already-marked name again changes nothing: the mark
/// operation is idempotent.
pub proof fn lemma_mark_idempotent(completed: Seq<Seq<char>>, name: Seq<char>)
    ensures
        spec_mark(spec_mark(completed, name), name) == spec_mark(completed, name),
{
    let once = spec_mark(completed, name);
    if spec_completed_contains(completed, name) {
    } else {
        assert(once[once.len() - 1] == name);
        assert(spec_completed_contains(once, name));
    }
}

/// The tally recorded for `name`: the count of its first entry, zero
/// when absent.
pub open spec fn spec_hint_count(h: Seq<(String, u32)>, name: Seq<char>) -> u32
    decreases h.len(),
{
    if h.len() == 0 {
        0u32
    } else if h[0].0@ == name {
        h[0].1
    } else {
        spec_hint_count(h.drop_first(), name)
    }
}

/// Whether the tally list holds an entry for `name`.
pub open spec fn spec_has_hint_key(h: Seq<(String, u32)>, name: Seq<char>) -> bool {
    exists|i: int| 0 <= i < h.len() && h[i].0@ == name
}

/// Tally keys are unique.
pub open spec fn spec_hints_wf(h: Seq<(String, u32)>) -> bool {
    forall|i: int, j: int| 0 <= i < j < h.len() ==> h[i].0@ != h[j].0@
}

/// Skipping entries that do not hold `name` leaves its tally alone.
pub proof fn lemma_hint_count_skip(h: Seq<(String, u32)>, name: Seq<char>, i: int)
    requires
        0 <= i <= h.len(),
        forall|j: int| 0 <= j < i ==> h[j].0@ != name,
    ensures
        spec_hint_count(h, name) == spec_hint_count(h.skip(i), name),
    decreases i,
{
    if i > 0 {
        lemma_hint_count_skip(h.drop_first(), name, i - 1);
        assert(h.drop_first().skip(i - 1) =~= h.skip(i));
    } else {
        assert(h.skip(0) =~= h);
    }
}

/// Appending an entry for a fresh key: its tally becomes the new
/// count, every other name's tally is untouched.
pub proof fn lemma_hint_count_push(h: Seq<(String, u32)>, p: (String, u32), n: Seq<char>)
    ensures
        p.0@ != n ==> spec_hint_count(h.push(p), n) == spec_hint_count(h, n),
        p.0@ == n && !spec_has_hint_key(h, n) ==> spec_hint_count(h.push(p), n) == p.1,
    decreases h.len(),
{
    if h.len() == 0 {
        assert(h.push(p)[0] == p);
        assert(h.push(p).drop_first() =~= Seq::<(String, u32)>::empty());
        if p.0@ != n {
            assert(spec_hint_count(h.push(p), n) == spec_hint_count(
                Seq::<(String, u32)>::empty(),
                n,
            ));
        }
    } else {
        lemma_hint_count_push(h.drop_first(), p, n);
        assert(h.push(p)[0] == h[0]);
        assert(h.push(p).drop_first() =~= h.drop_first().push(p));
        if h[0].0@ == n {
            assert(spec_hint_count(h.push(p), n) == h[0].1);
            assert(spec_hint_count(h, n) == h[0].1);
        } else {
            assert(spec_hint_count(h.push(p), n) == spec_hint_count(h.drop_first().push(p), n));
            assert(spec_hint_count(h, n) == spec_hint_count(h.drop_first(), n));
            if spec_has_hint_key(h, n) {
                let w = choose|i: int| 0 <= i < h.len() && h[i].0@ == n;
                assert(h.drop_first()[w - 1].0@ == n);
                assert(spec_has_hint_key(h.drop_first(), n));
            }
            if spec_has_hint_key(h.drop_first(), n) {
                let w = choose|i: int| 0 <= i < h.drop_first().len() && h.drop_first()[i].0@ == n;
                assert(h[w + 1].0@ == n);
                assert(spec_has_hint_key(h, n));
            }
        }
    }
}

/// Updating the first entry of a key: its tally becomes the new
/// count, every other name's tally is untouched.
pub proof fn lemma_hint_count_update(h: Seq<(String, u32)>, i: int, p: (String, u32), n: Seq<char>)
    requires
        0 <= i < h.len(),
        p.0@ == h[i].0@,
        forall|j: int| 0 <= j < i ==> h[j].0@ != h[i].0@,
    ensures
        spec_hint_count(h.update(i, p), h[i].0@) == p.1,
        n != h[i].0@ ==> spec_hint_count(h.update(i, p), n) == spec_hint_count(h, n),
    decreases i,
{
    if i == 0 {
        assert(h.update(0, p)[0] == p);
        assert(h.update(0, p).drop_first() =~= h.drop_first());
    } else {
        lemma_hint_count_update(h.drop_first(), i - 1, p, n);
        assert(h.update(i, p)[0] == h[0]);
        assert(h.update(i, p).drop_first() =~= h.drop_first().update(i - 1, p));
    }
}

impl ProgressFile {
    /// The timestamp rendering used in the record: whole seconds since
    /// the epoch, in decimal.
    pub fn now_iso(now_secs: u64) -> (r: String)
        ensures
            r@ == spec_dec(now_secs as nat),
    {
        dec_string(now_secs)
    }

    /// A fresh record: nothing completed, no current exercise, no
    /// tallies, both timestamps set to the given clock reading.
    pub fn new(now_secs: u64) -> (r: ProgressFile)
        ensures
            r.version == PROGRESS_VERSION,
            r.completed@.len() == 0,
            r.current is None,
            r.hints_used@.len() == 0,
            r.started_at matches Some(t) && t@ == spec_dec(now_secs as nat),
            r.last_activity matches Some(t) && t@ == spec_dec(now_secs as nat),
    {
        ProgressFile {
            version: PROGRESS_VERSION,
            completed: Vec::new(),
            current: None,
            hints_used: Vec::new(),
            started_at: Some(Self::now_iso(now_secs)),
            last_activity: Some(Self::now_iso(now_secs)),
        }
    }
}

/// Whether `name` is among the completed names, in executable form.
pub fn completed_contains(completed: &Vec<String>, name: &str) -> (r: bool)
    ensures
        r == spec_completed_contains(completed.deep_view(), name@),
{
    let mut i: usize = 0;
    while i < completed.len()
        invariant
            i <= completed@.len(),
            forall|j: int| 0 <= j < i ==> completed.deep_view()[j] != name@,
        decreases completed@.len() - i,
    {
        if str_eq(completed[i].as_str(), name) {
            assert(completed.deep_view()[i as int] == name@);
            return true;
        }
        i += 1;
    }
    false
}

} // verus!
