//! Debouncing: coalescing bursts of raw notifications for the same
//! path, arriving within one debounce window, into a single logical
//! notification.
//!
//! Editors and file managers generate several raw notifications for one
//! user-visible change; without coalescing, downstream remote actions
//! would be redundant or would race against an unfinished write. Of
//! each burst the last notification survives, so the downstream event
//! reflects the final state of the path.

use vstd::prelude::*;
use crate::text::str_eq;

verus! {

/// The low-level notification classes delivered by the observation
/// source.
#[derive(Clone, Copy, PartialEq, Eq, Structural, Debug)]
pub enum RawKind {
    Create,
    Write,
    Remove,
    Rename,
    Other,
}

/// The mathematical content of a raw notification.
pub ghost struct RawNotificationV {
    pub kind: RawKind,
    pub path: Seq<char>,
    pub old_path: Seq<char>,
}

/// One raw notification: an absolute path and what the source claims
/// happened to it. For a rename, `old_path` holds the original absolute
/// path and `path` the new one; otherwise `old_path` is empty.
#[derive(Debug)]
pub struct RawNotification {
    pub kind: RawKind,
    pub path: String,
    pub old_path: String,
}

impl View for RawNotification {
    type V = RawNotificationV;

    open spec fn view(&self) -> RawNotificationV {
        RawNotificationV { kind: self.kind, path: self.path@, old_path: self.old_path@ }
    }
}

impl RawNotification {
    /// A field-for-field copy.
    pub fn duplicate(&self) -> (r: RawNotification)
        ensures
            r@ == self@,
    {
        RawNotification { kind: self.kind, path: self.path.clone(), old_path: self.old_path.clone() }
    }
}

/// The mathematical content of an arrival.
pub ghost struct RawArrivalV {
    pub notif: RawNotificationV,
    pub at_ms: u64,
}

/// A raw notification together with its arrival time, in milliseconds
/// on any clock that is monotone across one batch.
#[derive(Debug)]
pub struct RawArrival {
    pub notif: RawNotification,
    pub at_ms: u64,
}

impl View for RawArrival {
    type V = RawArrivalV;

    open spec fn view(&self) -> RawArrivalV {
        RawArrivalV { notif: self.notif@, at_ms: self.at_ms }
    }
}

/// The views of a sequence of arrivals.
pub open spec fn arrivals_view(s: Seq<RawArrival>) -> Seq<RawArrivalV> {
    s.map_values(|a: RawArrival| a@)
}

/// Arrival times never decrease along the batch.
pub open spec fn sorted_by_time(s: Seq<RawArrivalV>) -> bool {
    forall|i: int, j: int| 0 <= i <= j < s.len() ==> #[trigger] s[i].at_ms <= #[trigger] s[j].at_ms
}

/// The arrival at `i` survives debouncing: no later arrival for the
/// same path falls within one window of it.
pub open spec fn keep_at(s: Seq<RawArrivalV>, window_ms: u64, i: int) -> bool {
    !(exists|j: int|
        i < j < s.len() && #[trigger] s[j].notif.path == s[i].notif.path && s[j].at_ms - s[i].at_ms
            <= window_ms)
}

/// The subsequence of arrivals at or after `i` that survive
/// debouncing, in arrival order.
pub open spec fn kept_from(s: Seq<RawArrivalV>, window_ms: u64, i: int) -> Seq<RawArrivalV>
    decreases s.len() - i,
{
    if i < 0 || i >= s.len() {
        Seq::empty()
    } else if keep_at(s, window_ms, i) {
        seq![s[i]] + kept_from(s, window_ms, i + 1)
    } else {
        kept_from(s, window_ms, i + 1)
    }
}

/// How many arrivals in `s` concern the path `p`.
pub open spec fn count_path(s: Seq<RawArrivalV>, p: Seq<char>) -> int
    decreases s.len(),
{
    if s.len() == 0 {
        0
    } else {
        (if s[0].notif.path == p {
            1int
        } else {
            0int
        }) + count_path(s.drop_first(), p)
    }
}

proof fn lemma_count_path_concat(a: Seq<RawArrivalV>, b: Seq<RawArrivalV>, p: Seq<char>)
    ensures
        count_path(a + b, p) == count_path(a, p) + count_path(b, p),
    decreases a.len(),
{
    if a.len() == 0 {
        assert(a + b =~= b);
    } else {
        assert((a + b).drop_first() =~= a.drop_first() + b);
        assert((a + b)[0] == a[0]);
        lemma_count_path_concat(a.drop_first(), b, p);
    }
}

/// Coalesces each burst to its last arrival: an arrival is dropped
/// exactly when a later arrival for the same path lies within one
/// window of it.
pub fn debounce_batch(arrivals: &Vec<RawArrival>, window_ms: u64) -> (r: Vec<RawArrival>)
    requires
        sorted_by_time(arrivals_view(arrivals@)),
    ensures
        arrivals_view(r@) == kept_from(arrivals_view(arrivals@), window_ms, 0),
{
    let ghost s = arrivals_view(arrivals@);
    let n = arrivals.len();
    let mut out: Vec<RawArrival> = Vec::new();
    let mut i: usize = 0;
    proof {
        assert(arrivals_view(out@) + kept_from(s, window_ms, 0) =~= kept_from(s, window_ms, 0));
    }
    while i < n
        invariant
            n == arrivals@.len(),
            s == arrivals_view(arrivals@),
            s.len() == n,
            sorted_by_time(s),
            0 <= i <= n,
            kept_from(s, window_ms, 0) == arrivals_view(out@) + kept_from(s, window_ms, i as int),
        decreases n - i,
    {
        let mut j: usize = i + 1;
        let mut keep: bool = true;
        while j < n && keep
            invariant
                n == arrivals@.len(),
                s == arrivals_view(arrivals@),
                s.len() == n,
                sorted_by_time(s),
                0 <= i < n,
                i < j <= n,
                keep ==> forall|k: int|
                    i < k < j ==> !(#[trigger] s[k].notif.path == s[i as int].notif.path
                        && s[k].at_ms - s[i as int].at_ms <= window_ms),
                !keep ==> !keep_at(s, window_ms, i as int),
            decreases n - j + (if keep { 1int } else { 0int }),
        {
            proof {
                assert(s[j as int] == arrivals@[j as int]@);
                assert(s[i as int] == arrivals@[i as int]@);
                assert(s[i as int].at_ms <= s[j as int].at_ms);
            }
            if str_eq(arrivals[j].notif.path.as_str(), arrivals[i].notif.path.as_str())
                && arrivals[j].at_ms - arrivals[i].at_ms <= window_ms {
                proof {
                    assert(s[j as int].notif.path == s[i as int].notif.path);
                    assert(s[j as int].at_ms - s[i as int].at_ms <= window_ms);
                    assert(!keep_at(s, window_ms, i as int));
                }
                keep = false;
            } else {
                j += 1;
            }
        }
        proof {
            assert(s[i as int] == arrivals@[i as int]@);
        }
        if keep {
            let copy = RawArrival {
                notif: arrivals[i].notif.duplicate(),
                at_ms: arrivals[i].at_ms,
            };
            assert(copy@ == s[i as int]);
            let ghost out_pre = arrivals_view(out@);
            out.push(copy);
            proof {
                assert(keep_at(s, window_ms, i as int));
                assert(arrivals_view(out@) =~= out_pre + seq![s[i as int]]);
                assert(kept_from(s, window_ms, i as int) == seq![s[i as int]] + kept_from(
                    s,
                    window_ms,
                    i + 1,
                ));
                assert(out_pre + kept_from(s, window_ms, i as int) =~= arrivals_view(out@)
                    + kept_from(s, window_ms, i + 1));
            }
        } else {
            proof {
                assert(kept_from(s, window_ms, i as int) == kept_from(s, window_ms, i + 1));
            }
        }
        i += 1;
    }
    proof {
        assert(kept_from(s, window_ms, n as int) =~= Seq::<RawArrivalV>::empty());
        assert(arrivals_view(out@) + kept_from(s, window_ms, n as int) =~= arrivals_view(out@));
    }
    out
}

proof fn lemma_debounce_count_from(s: Seq<RawArrivalV>, window_ms: u64, p: Seq<char>, i: int)
    requires
        sorted_by_time(s),
        forall|k: int, l: int|
            0 <= k <= l < s.len() && #[trigger] s[k].notif.path == p && #[trigger] s[l].notif.path
                == p ==> s[l].at_ms - s[k].at_ms <= window_ms,
        0 <= i <= s.len(),
    ensures
        count_path(kept_from(s, window_ms, i), p) == if exists|k: int|
            i <= k < s.len() && #[trigger] s[k].notif.path == p {
            1int
        } else {
            0int
        },
    decreases s.len() - i,
{
    if i >= s.len() {
        assert(count_path(Seq::<RawArrivalV>::empty(), p) == 0);
    } else {
        lemma_debounce_count_from(s, window_ms, p, i + 1);
        let rest = kept_from(s, window_ms, i + 1);
        if keep_at(s, window_ms, i) {
            assert(kept_from(s, window_ms, i) == seq![s[i]] + rest);
            lemma_count_path_concat(seq![s[i]], rest, p);
            assert(count_path(seq![s[i]], p) == if s[i].notif.path == p {
                1int
            } else {
                0int
            }) by {
                assert(seq![s[i]].drop_first() =~= Seq::<RawArrivalV>::empty());
                assert(count_path(Seq::<RawArrivalV>::empty(), p) == 0);
                assert(seq![s[i]][0] == s[i]);
            }
            if s[i].notif.path == p {
                // no later arrival for p: one within the window would
                // contradict keep_at, and every later one is within it
                assert(!(exists|k: int| i + 1 <= k < s.len() && #[trigger] s[k].notif.path == p))
                    by {
                    if exists|k: int| i + 1 <= k < s.len() && #[trigger] s[k].notif.path == p {
                        let k = choose|k: int|
                            i + 1 <= k < s.len() && #[trigger] s[k].notif.path == p;
                        assert(s[k].at_ms - s[i].at_ms <= window_ms);
                        assert(!keep_at(s, window_ms, i));
                    }
                }
            }
        } else {
            assert(kept_from(s, window_ms, i) == rest);
            let j = choose|j: int|
                i < j < s.len() && #[trigger] s[j].notif.path == s[i].notif.path && s[j].at_ms
                    - s[i].at_ms <= window_ms;
            if s[i].notif.path == p {
                assert(s[j].notif.path == p);
            }
        }
    }
}

/// The debounce law: when every raw notification for a path `p` in a
/// time-sorted batch lies within one debounce window of every other,
/// and at least one such notification arrived, then exactly one
/// notification for `p` survives debouncing.
pub proof fn lemma_debounce_coalesces_bursts(
    s: Seq<RawArrivalV>,
    window_ms: u64,
    p: Seq<char>,
)
    requires
        sorted_by_time(s),
        forall|k: int, l: int|
            0 <= k <= l < s.len() && #[trigger] s[k].notif.path == p && #[trigger] s[l].notif.path
                == p ==> s[l].at_ms - s[k].at_ms <= window_ms,
        exists|k: int| 0 <= k < s.len() && #[trigger] s[k].notif.path == p,
    ensures
        count_path(kept_from(s, window_ms, 0), p) == 1,
{
    lemma_debounce_count_from(s, window_ms, p, 0);
}

} // verus!
