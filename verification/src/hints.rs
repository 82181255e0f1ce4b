//! Hint display and usage tracking.

use vstd::prelude::*;
use crate::exercise::Exercise;
use crate::progress::{
    ProgressFile,
    spec_hint_count,
    spec_has_hint_key,
    spec_hints_wf,
    lemma_hint_count_skip,
    lemma_hint_count_push,
    lemma_hint_count_update,
};
use crate::text::str_eq;

verus! {

/// The hint for an exercise, if it has one.
pub fn hint_for(exercise: &Exercise) -> (r: Option<&str>)
    ensures
        match (r, &exercise.hint) {
            (Some(a), Some(b)) => a@ == b@,
            (None, None) => true,
            _ => false,
        },
{
    match &exercise.hint {
        Some(h) => Some(h.as_str()),
        None => None,
    }
}

/// Records one more hint request for an exercise: its tally grows by
/// one (saturating), every other tally and every other field of the
/// record stays as it was, and key uniqueness is preserved.
pub fn record_hint_used(progress: &mut ProgressFile, exercise_name: &str)
    ensures
        spec_hint_count(final(progress).hints_used@, exercise_name@) == (if spec_hint_count(
            old(progress).hints_used@,
            exercise_name@,
        ) < u32::MAX {
            (spec_hint_count(old(progress).hints_used@, exercise_name@) + 1) as u32
        } else {
            u32::MAX
        }),
        forall|n: Seq<char>|
            n != exercise_name@ ==> spec_hint_count(final(progress).hints_used@, n)
                == spec_hint_count(old(progress).hints_used@, n),
        spec_hints_wf(old(progress).hints_used@) ==> spec_hints_wf(final(progress).hints_used@),
        final(progress).version == old(progress).version,
        final(progress).completed == old(progress).completed,
        final(progress).current == old(progress).current,
        final(progress).started_at == old(progress).started_at,
        final(progress).last_activity == old(progress).last_activity,
{
    let n = progress.hints_used.len();
    let mut i: usize = 0;
    while i < n
        invariant
            n == progress.hints_used@.len(),
            i <= n,
            *progress == *old(progress),
            forall|j: int| 0 <= j < i ==> progress.hints_used@[j].0@ != exercise_name@,
        decreases n - i,
    {
        if str_eq(progress.hints_used[i].0.as_str(), exercise_name) {
            let count = progress.hints_used[i].1;
            let new_count = if count < u32::MAX {
                count + 1
            } else {
                u32::MAX
            };
            let key = progress.hints_used[i].0.clone();
            let ghost h = progress.hints_used@;
            let ghost idx = i as int;
            progress.hints_used[i] = (key, new_count);
            proof {
                assert(progress.hints_used@ =~= h.update(idx, (key, new_count)));
                lemma_hint_count_skip(h, exercise_name@, idx);
                assert(h.skip(idx)[0] == h[idx]);
                assert(spec_hint_count(h, exercise_name@) == h[idx].1);
                lemma_hint_count_update(h, idx, (key, new_count), exercise_name@);
                assert forall|m: Seq<char>| m != exercise_name@ implies spec_hint_count(
                    progress.hints_used@,
                    m,
                ) == spec_hint_count(h, m) by {
                    lemma_hint_count_update(h, idx, (key, new_count), m);
                }
                assert forall|a: int, b: int|
                    0 <= a < b < progress.hints_used@.len() && spec_hints_wf(h) implies progress
                    .hints_used@[a].0@ != progress.hints_used@[b].0@ by {
                    assert(h[a].0@ != h[b].0@);
                }
            }
            return ;
        }
        i += 1;
    }
    let ghost h = progress.hints_used@;
    let mut key = String::new();
    key.append(exercise_name);
    progress.hints_used.push((key, 1));
    proof {
        let p = progress.hints_used@[h.len() as int];
        assert(progress.hints_used@ =~= h.push(p));
        assert(!spec_has_hint_key(h, exercise_name@));
        lemma_hint_count_skip(h, exercise_name@, h.len() as int);
        assert(h.skip(h.len() as int) =~= Seq::<(String, u32)>::empty());
        lemma_hint_count_push(h, p, exercise_name@);
        assert forall|m: Seq<char>| m != exercise_name@ implies spec_hint_count(
            progress.hints_used@,
            m,
        ) == spec_hint_count(h, m) by {
            lemma_hint_count_push(h, p, m);
        }
    }
}

/// The number of times hints were requested for an exercise.
pub fn hints_used_count(progress: &ProgressFile, exercise_name: &str) -> (r: u32)
    ensures
        r == spec_hint_count(progress.hints_used@, exercise_name@),
{
    let n = progress.hints_used.len();
    let mut i: usize = 0;
    while i < n
        invariant
            n == progress.hints_used@.len(),
            i <= n,
            forall|j: int| 0 <= j < i ==> progress.hints_used@[j].0@ != exercise_name@,
        decreases n - i,
    {
        if str_eq(progress.hints_used[i].0.as_str(), exercise_name) {
            proof {
                lemma_hint_count_skip(progress.hints_used@, exercise_name@, i as int);
                assert(progress.hints_used@.skip(i as int)[0] == progress.hints_used@[i as int]);
            }
            return progress.hints_used[i].1;
        }
        i += 1;
    }
    proof {
        lemma_hint_count_skip(progress.hints_used@, exercise_name@, n as int);
        assert(progress.hints_used@.skip(n as int) =~= Seq::<(String, u32)>::empty());
    }
    0
}

} // verus!
