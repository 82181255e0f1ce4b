//! File-watch events and the debouncer.
//!
//! The platform watcher itself is I/O and lives outside the library; it
//! hands paths in as plain strings.  Time likewise enters as an explicit
//! millisecond reading, so the debouncer's behaviour is a pure function
//! of its state and the clock values it is given.

use vstd::prelude::*;
use crate::text::chars_of;

verus! {

/// Events emitted by the file watcher.
pub enum WatchEvent {
    /// An exercise file was modified or created.
    FileChanged(String),
    /// An error occurred while watching.
    Error(String),
}

/// The file-name portion of a path: the suffix after the last `/`.
pub open spec fn spec_file_name(p: Seq<char>) -> Seq<char>
    decreases p.len(),
{
    if p.len() == 0 {
        p
    } else if p[p.len() - 1] == '/' {
        Seq::empty()
    } else {
        spec_file_name(p.drop_last()) + seq![p[p.len() - 1]]
    }
}

/// Whether a path names a learner script: its file name has a non-empty
/// stem followed by the `.py` suffix.
pub open spec fn spec_has_py_extension(p: Seq<char>) -> bool {
    let n = spec_file_name(p);
    n.len() > 3 && n[n.len() - 3] == '.' && n[n.len() - 2] == 'p' && n[n.len() - 1] == 'y'
}

proof fn lemma_file_name_is_suffix(p: Seq<char>, k: int)
    requires
        0 <= k <= p.len(),
        forall|i: int| k <= i < p.len() ==> p[i] != '/',
        k == 0 || p[k - 1] == '/',
    ensures
        spec_file_name(p) == p.subrange(k, p.len() as int),
    decreases p.len(),
{
    if p.len() == 0 {
        assert(spec_file_name(p) =~= p.subrange(k, p.len() as int));
    } else if p[p.len() - 1] == '/' {
        assert(k == p.len());
        assert(spec_file_name(p) =~= p.subrange(k, p.len() as int));
    } else {
        let q = p.drop_last();
        lemma_file_name_is_suffix(q, k);
        assert(spec_file_name(p) =~= p.subrange(k, p.len() as int));
    }
}

/// Whether the path ends in `.py` with a non-empty file-name stem.
pub fn has_py_extension(path: &String) -> (r: bool)
    ensures
        r == spec_has_py_extension(path@),
{
    let v = chars_of(path.as_str());
    let len = v.len();
    // Find the start of the file name: one past the last '/'.
    let mut k: usize = len;
    while k > 0 && v[k - 1] != '/'
        invariant
            k <= len,
            len == v.len(),
            forall|i: int| k <= i < len ==> v@[i] != '/',
        decreases k,
    {
        k -= 1;
    }
    proof {
        lemma_file_name_is_suffix(path@, k as int);
    }
    let name_len = len - k;
    if name_len > 3 {
        let c_dot = v[len - 3];
        let c_p = v[len - 2];
        let c_y = v[len - 1];
        proof {
            let n = spec_file_name(path@);
            assert(n[n.len() - 3] == path@[len - 3]);
            assert(n[n.len() - 2] == path@[len - 2]);
            assert(n[n.len() - 1] == path@[len - 1]);
        }
        c_dot == '.' && c_p == 'p' && c_y == 'y'
    } else {
        false
    }
}

/// The watch event to forward for a raw file-system notification, if
/// any: modify and create events on learner scripts pass the filter,
/// everything else is dropped.
pub fn watch_event_for(is_modify_or_create: bool, path: String) -> (r: Option<WatchEvent>)
    ensures
        (is_modify_or_create && spec_has_py_extension(path@)) <==> (r matches Some(
            WatchEvent::FileChanged(p),
        ) && p@ == path@),
        !(is_modify_or_create && spec_has_py_extension(path@)) ==> r is None,
{
    if is_modify_or_create && has_py_extension(&path) {
        Some(WatchEvent::FileChanged(path))
    } else {
        None
    }
}

/// Trailing-edge debouncer for watch events: records when the last
/// event was seen and answers whether enough quiet time has elapsed.
pub struct Debouncer {
    last_event_time: Option<u64>,
    debounce_ms: u64,
}

/// Milliseconds elapsed from `last` to `now`, zero if `now` is earlier.
pub open spec fn spec_elapsed(last: u64, now: u64) -> u64 {
    if now >= last {
        (now - last) as u64
    } else {
        0
    }
}

impl Debouncer {
    /// The recorded time of the last observed event, if any.
    pub closed spec fn last_event(&self) -> Option<u64> {
        self.last_event_time
    }

    /// The quiet period required before triggering.
    pub closed spec fn delta(&self) -> u64 {
        self.debounce_ms
    }

    /// Whether a trigger is due at time `now`: an event was observed
    /// and at least the quiet period has elapsed since it.
    pub open spec fn spec_ready(&self, now: u64) -> bool {
        &&& self.last_event() is Some
        &&& spec_elapsed(self.last_event()->0, now) >= self.delta()
    }

    pub fn new(debounce_ms: u64) -> (d: Debouncer)
        ensures
            d.last_event() is None,
            d.delta() == debounce_ms,
    {
        Debouncer { last_event_time: None, debounce_ms }
    }

    /// Records an event at time `now`, deferring the trigger.
    pub fn observe(&mut self, now: u64)
        ensures
            final(self).last_event() == Some(now),
            final(self).delta() == old(self).delta(),
    {
        self.last_event_time = Some(now);
    }

    /// Records an event at time `now` and reports whether it came after
    /// a full quiet period (and so may be processed immediately).
    pub fn should_process(&mut self, now: u64) -> (r: bool)
        ensures
            final(self).last_event() == Some(now),
            final(self).delta() == old(self).delta(),
            r == (old(self).last_event() is None || old(self).spec_ready(now)),
    {
        let process = match self.last_event_time {
            Some(last) => {
                let elapsed = if now >= last {
                    now - last
                } else {
                    0
                };
                elapsed >= self.debounce_ms
            },
            None => true,
        };
        self.last_event_time = Some(now);
        process
    }

    /// Whether a trigger is due at time `now`.
    pub fn ready_to_trigger(&self, now: u64) -> (r: bool)
        ensures
            r == self.spec_ready(now),
    {
        match self.last_event_time {
            Some(last) => {
                let elapsed = if now >= last {
                    now - last
                } else {
                    0
                };
                elapsed >= self.debounce_ms
            },
            None => false,
        }
    }

    /// Clears the recorded event, so nothing is due until the next one.
    pub fn reset(&mut self)
        ensures
            final(self).last_event() is None,
            final(self).delta() == old(self).delta(),
    {
        self.last_event_time = None;
    }
}

/// After an event at time `t`, the debouncer is ready at `t + w`
/// exactly when the wait `w` reaches the quiet period.
pub proof fn lemma_debounce_trailing_edge(d: Debouncer, t: u64, w: u64)
    requires
        d.last_event() == Some(t),
        t + w <= u64::MAX,
    ensures
        d.spec_ready((t + w) as u64) == (w >= d.delta()),
{
}

/// A second event pushes the deadline forward: within a quiet period of
/// the latest event, the debouncer is not ready, however long ago the
/// earlier events were.
pub proof fn lemma_debounce_defers(d: Debouncer, t2: u64, now: u64)
    requires
        d.last_event() == Some(t2),
        d.delta() > 0,
        t2 <= now,
        now - t2 < d.delta(),
    ensures
        !d.spec_ready(now),
{
}

} // verus!
