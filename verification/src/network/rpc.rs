//! Remote procedure calls awaiting their response: each is known by its
//! request id, remembers its method and when it was sent, and is forgotten
//! when its response arrives or when it has waited too long.

use crate::text::{append_decimal, append_str, decimal, str_eq};
use crate::time::{duration_as_nanos, elapsed, nanos_of, now};
use std::time::Duration;
use std::time::Instant;
use vstd::prelude::*;

verus! {

/// The request id of the `counter`-th call made by process `pid`:
/// `rpc-<pid>-<counter>`.
pub fn request_id_for(pid: u32, counter: u64) -> (id: String)
    ensures
        id@ == "rpc-"@ + decimal(pid as nat) + "-"@ + decimal(counter as nat),
{
    let mut s = String::new();
    append_str(&mut s, "rpc-");
    append_decimal(&mut s, pid as u64);
    append_str(&mut s, "-");
    append_decimal(&mut s, counter);
    proof {
        assert(s@ =~= "rpc-"@ + decimal(pid as nat) + "-"@ + decimal(counter as nat));
    }
    s
}

/// Request ids are unique: calls of one process with different counters
/// get different ids.
pub proof fn lemma_request_ids_distinct(pid: u32, c1: u64, c2: u64)
    requires
        c1 != c2,
    ensures
        "rpc-"@ + decimal(pid as nat) + "-"@ + decimal(c1 as nat) != "rpc-"@ + decimal(pid as nat) + "-"@ + decimal(
            c2 as nat,
        ),
{
    let p = "rpc-"@ + decimal(pid as nat) + "-"@;
    if p + decimal(c1 as nat) == p + decimal(c2 as nat) {
        assert((p + decimal(c1 as nat)).subrange(p.len() as int, (p + decimal(c1 as nat)).len() as int) =~= decimal(c1 as nat));
        assert((p + decimal(c2 as nat)).subrange(p.len() as int, (p + decimal(c2 as nat)).len() as int) =~= decimal(c2 as nat));
        crate::text::lemma_decimal_injective(c1 as nat, c2 as nat);
    }
}

/// A call that has been sent and awaits its response.
#[derive(Debug)]
pub struct PendingRpc {
    /// The id the response will carry.
    pub request_id: String,
    /// The method called.
    pub method: String,
    /// When the call was sent.
    pub sent_at: Instant,
}

/// The abstract value of a pending call.
pub struct PendingView {
    pub request_id: Seq<char>,
    pub method: Seq<char>,
    pub sent_at: Instant,
}

impl View for PendingRpc {
    type V = PendingView;

    open spec fn view(&self) -> PendingView {
        PendingView { request_id: self.request_id@, method: self.method@, sent_at: self.sent_at }
    }
}

impl PendingRpc {
    /// A copy of the pending call.
    pub fn duplicate(&self) -> (p: Self)
        ensures
            p@ == self@,
    {
        PendingRpc { request_id: self.request_id.clone(), method: self.method.clone(), sent_at: self.sent_at.clone() }
    }
}

/// The request ids of a list of pending calls.
pub open spec fn request_ids(s: Seq<PendingView>) -> Seq<Seq<char>> {
    s.map_values(|p: PendingView| p.request_id)
}

/// Whether a call that has waited `age` is still within `max_age`.
pub open spec fn is_fresh(age: Duration, max_age: Duration) -> bool {
    duration_as_nanos(age) <= duration_as_nanos(max_age)
}

/// The calls of `s` that are still within `max_age`, where `ages[i]` is how
/// long `s[i]` has waited, in order.
pub open spec fn fresh_calls(s: Seq<PendingView>, ages: Seq<Duration>, max_age: Duration) -> Seq<PendingView>
    decreases s.len(),
{
    if s.len() == 0 {
        Seq::empty()
    } else if is_fresh(ages[s.len() - 1], max_age) {
        fresh_calls(s.drop_last(), ages, max_age).push(s.last())
    } else {
        fresh_calls(s.drop_last(), ages, max_age)
    }
}

/// The request ids of the calls of `s` that have waited longer than
/// `max_age`, in order.
pub open spec fn stale_ids(s: Seq<PendingView>, ages: Seq<Duration>, max_age: Duration) -> Seq<Seq<char>>
    decreases s.len(),
{
    if s.len() == 0 {
        Seq::empty()
    } else if is_fresh(ages[s.len() - 1], max_age) {
        stale_ids(s.drop_last(), ages, max_age)
    } else {
        stale_ids(s.drop_last(), ages, max_age).push(s.last().request_id)
    }
}

/// The calls awaiting a response, at most one per request id, in the order
/// they were sent.
pub struct RpcTable {
    pending: Vec<PendingRpc>,
}

impl View for RpcTable {
    type V = Seq<PendingView>;

    closed spec fn view(&self) -> Seq<PendingView> {
        self.pending@.map_values(|p: PendingRpc| p@)
    }
}

impl RpcTable {
    /// The invariant: no two calls share a request id.
    pub closed spec fn wf(&self) -> bool {
        request_ids(self@).no_duplicates()
    }

    /// An empty table.
    pub fn new() -> (t: Self)
        ensures
            t.wf(),
            t@ == Seq::<PendingView>::empty(),
    {
        let t = RpcTable { pending: Vec::new() };
        proof {
            assert(t@ =~= Seq::<PendingView>::empty());
            assert(request_ids(t@) =~= Seq::<Seq<char>>::empty());
        }
        t
    }

    /// The position of the call with `request_id`, if any.
    fn find(&self, request_id: &str) -> (r: Option<usize>)
        ensures
            match r {
                Some(i) => i < self@.len() && self@[i as int].request_id == request_id@,
                None => !request_ids(self@).contains(request_id@),
            },
    {
        let mut i: usize = 0;
        while i < self.pending.len()
            invariant
                i <= self.pending@.len(),
                forall|j: int| 0 <= j < i ==> #[trigger] self.pending@[j].request_id@ != request_id@,
            decreases self.pending@.len() - i,
        {
            if str_eq(self.pending[i].request_id.as_str(), request_id) {
                return Some(i);
            }
            i = i + 1;
        }
        proof {
            if request_ids(self@).contains(request_id@) {
                let k = choose|k: int| 0 <= k < request_ids(self@).len() && request_ids(self@)[k] == request_id@;
                assert(self.pending@[k].request_id@ == request_id@);
            }
        }
        None
    }

    /// The number of calls awaiting a response.
    pub fn pending_count(&self) -> (n: usize)
        ensures
            n == self@.len(),
    {
        self.pending.len()
    }

    /// Whether a call with `request_id` awaits its response.
    pub fn contains(&self, request_id: &str) -> (b: bool)
        ensures
            b == request_ids(self@).contains(request_id@),
    {
        match self.find(request_id) {
            Some(i) => {
                proof {
                    assert(request_ids(self@)[i as int] == request_id@);
                }
                true
            },
            None => false,
        }
    }

    /// Records that a call of `method` with `request_id` was sent now; a
    /// call already pending under that id is replaced in place.
    pub fn register(&mut self, request_id: String, method: String)
        requires
            old(self).wf(),
        ensures
            final(self).wf(),
            request_ids(old(self)@).contains(request_id@) ==> request_ids(final(self)@) == request_ids(old(self)@),
            !request_ids(old(self)@).contains(request_id@) ==> request_ids(final(self)@) == request_ids(old(self)@).push(
                request_id@,
            ),
            forall|i: int| 0 <= i < old(self)@.len() && #[trigger] old(self)@[i].request_id != request_id@ ==> final(self)@[i]
                == old(self)@[i],
            forall|i: int| 0 <= i < final(self)@.len() && #[trigger] final(self)@[i].request_id == request_id@ ==> final(self)@[i].method
                == method@,
    {
        let ghost before = self@;
        let found = self.find(request_id.as_str());
        let call = PendingRpc { request_id, method, sent_at: now() };
        let ghost cv = call@;
        match found {
            Some(i) => {
                self.pending.set(i, call);
                proof {
                    assert(request_ids(before)[i as int] == cv.request_id);
                    assert(self@ =~= before.update(i as int, cv));
                    assert(request_ids(self@) =~= request_ids(before));
                    assert forall|k: int| 0 <= k < self@.len() && #[trigger] self@[k].request_id == cv.request_id implies self@[k].method
                        == cv.method by {
                        if k != i {
                            assert(request_ids(before)[k] == request_ids(before)[i as int]);
                        }
                    }
                }
            },
            None => {
                self.pending.push(call);
                proof {
                    assert(self@ =~= before.push(cv));
                    assert(request_ids(self@) =~= request_ids(before).push(cv.request_id));
                    assert forall|k: int| 0 <= k < self@.len() && #[trigger] self@[k].request_id == cv.request_id implies self@[k].method
                        == cv.method by {
                        if k < before.len() {
                            assert(request_ids(before)[k] == cv.request_id);
                        }
                    }
                }
            },
        }
    }

    /// Takes out the call that the response with `request_id` answers, if
    /// it is still pending; a response to an unknown or forgotten call
    /// finds nothing.
    pub fn complete(&mut self, request_id: &str) -> (r: Option<PendingRpc>)
        requires
            old(self).wf(),
        ensures
            final(self).wf(),
            match r {
                Some(p) => {
                    let k = request_ids(old(self)@).index_of(request_id@);
                    &&& request_ids(old(self)@).contains(request_id@)
                    &&& p@ == old(self)@[k]
                    &&& final(self)@ == old(self)@.remove(k)
                },
                None => !request_ids(old(self)@).contains(request_id@) && final(self)@ == old(self)@,
            },
    {
        let ghost before = self@;
        match self.find(request_id) {
            Some(i) => {
                proof {
                    assert(request_ids(before)[i as int] == request_id@);
                    let k = request_ids(before).index_of(request_id@);
                    assert(request_ids(before)[k] == request_id@);
                }
                let p = self.pending.remove(i);
                proof {
                    assert(self@ =~= before.remove(i as int));
                    let a = request_ids(self@);
                    assert forall|x: int, y: int| 0 <= x < a.len() && 0 <= y < a.len() && x != y implies a[x] != a[y] by {
                        let ox = if x < i { x } else { x + 1 };
                        let oy = if y < i { y } else { y + 1 };
                        assert(a[x] == request_ids(before)[ox]);
                        assert(a[y] == request_ids(before)[oy]);
                    }
                }
                Some(p)
            },
            None => None,
        }
    }

    /// Forgets the calls that have waited longer than `max_age`, where
    /// `ages[i]` is how long the `i`-th call has waited; returns their
    /// request ids, in order.
    pub fn drop_stale(&mut self, ages: &Vec<Duration>, max_age: &Duration) -> (removed: Vec<String>)
        requires
            old(self).wf(),
            ages@.len() == old(self)@.len(),
        ensures
            final(self).wf(),
            final(self)@ == fresh_calls(old(self)@, ages@, *max_age),
            removed@.map_values(|s: String| s@) == stale_ids(old(self)@, ages@, *max_age),
    {
        let ghost s = self@;
        let mut kept: Vec<PendingRpc> = Vec::new();
        let mut removed: Vec<String> = Vec::new();
        let limit = nanos_of(max_age);
        let mut i: usize = 0;
        while i < self.pending.len()
            invariant
                i <= self.pending@.len(),
                s == self@,
                s.len() == self.pending@.len(),
                ages@.len() == s.len(),
                limit == duration_as_nanos(*max_age),
                kept@.map_values(|p: PendingRpc| p@) == fresh_calls(s.subrange(0, i as int), ages@, *max_age),
                removed@.map_values(|x: String| x@) == stale_ids(s.subrange(0, i as int), ages@, *max_age),
            decreases self.pending@.len() - i,
        {
            proof {
                assert(s.subrange(0, i + 1).drop_last() =~= s.subrange(0, i as int));
                assert(s.subrange(0, i + 1).last() == self.pending@[i as int]@);
            }
            if nanos_of(&ages[i]) <= limit {
                let ghost before = kept@;
                kept.push(self.pending[i].duplicate());
                proof {
                    assert(kept@.map_values(|p: PendingRpc| p@) =~= before.map_values(|p: PendingRpc| p@).push(
                        self.pending@[i as int]@,
                    ));
                }
            } else {
                let ghost before = removed@;
                removed.push(self.pending[i].request_id.clone());
                proof {
                    assert(removed@.map_values(|x: String| x@) =~= before.map_values(|x: String| x@).push(
                        self.pending@[i as int].request_id@,
                    ));
                }
            }
            i = i + 1;
        }
        proof {
            assert(s.subrange(0, s.len() as int) =~= s);
            lemma_fresh_calls_distinct(s, ages@, *max_age);
        }
        self.pending = kept;
        removed
    }

    /// Forgets the calls that, by the clock, have waited longer than
    /// `max_age`; returns their request ids.
    pub fn cleanup_stale(&mut self, max_age: &Duration) -> (removed: Vec<String>)
        requires
            old(self).wf(),
        ensures
            final(self).wf(),
            exists|ages: Seq<Duration>| #![auto]
                ages.len() == old(self)@.len() && final(self)@ == fresh_calls(old(self)@, ages, *max_age)
                    && removed@.map_values(|s: String| s@) == stale_ids(old(self)@, ages, *max_age),
    {
        let mut ages: Vec<Duration> = Vec::new();
        let mut i: usize = 0;
        while i < self.pending.len()
            invariant
                i <= self.pending@.len(),
                ages@.len() == i,
            decreases self.pending@.len() - i,
        {
            ages.push(elapsed(&self.pending[i].sent_at));
            i = i + 1;
        }
        proof {
            assert(self.pending@.len() == self@.len());
        }
        self.drop_stale(&ages, max_age)
    }
}

/// Keeping some calls of a list keeps their request ids distinct, and each
/// kept call was in the list.
proof fn lemma_fresh_calls_distinct(s: Seq<PendingView>, ages: Seq<Duration>, max_age: Duration)
    requires
        request_ids(s).no_duplicates(),
    ensures
        request_ids(fresh_calls(s, ages, max_age)).no_duplicates(),
        forall|x: Seq<char>| request_ids(fresh_calls(s, ages, max_age)).contains(x) ==> request_ids(s).contains(x),
    decreases s.len(),
{
    if s.len() > 0 {
        let init = s.drop_last();
        assert(request_ids(init) =~= request_ids(s).drop_last());
        assert forall|a: int, b: int| 0 <= a < b < request_ids(init).len() implies request_ids(init)[a] != request_ids(init)[b] by {
            assert(request_ids(s)[a] != request_ids(s)[b]);
        }
        lemma_fresh_calls_distinct(init, ages, max_age);
        let f = fresh_calls(init, ages, max_age);
        let fresh = is_fresh(ages[s.len() - 1], max_age);
        let r = request_ids(fresh_calls(s, ages, max_age));
        if fresh {
            assert(r =~= request_ids(f).push(s.last().request_id));
        } else {
            assert(r =~= request_ids(f));
        }
        assert forall|x: Seq<char>| r.contains(x) implies request_ids(s).contains(x) by {
            let k = choose|k: int| 0 <= k < r.len() && r[k] == x;
            if fresh && k == r.len() - 1 {
                assert(request_ids(s)[s.len() - 1] == x);
            } else {
                assert(request_ids(f)[k] == x);
                assert(request_ids(f).contains(x));
                assert(request_ids(init).contains(x));
                let j = choose|j: int| 0 <= j < request_ids(init).len() && request_ids(init)[j] == x;
                assert(request_ids(s)[j] == x);
            }
        }
        if fresh {
            assert(!request_ids(init).contains(s.last().request_id)) by {
                if request_ids(init).contains(s.last().request_id) {
                    let j = choose|j: int| 0 <= j < request_ids(init).len() && request_ids(init)[j] == s.last().request_id;
                    assert(request_ids(s)[j] == request_ids(s)[s.len() - 1]);
                }
            }
            assert forall|a: int, b: int| 0 <= a < b < r.len() implies r[a] != r[b] by {
                if b == r.len() - 1 {
                    assert(request_ids(f)[a] == r[a]);
                    assert(request_ids(f).contains(r[a]));
                }
            }
        }
    }
}

/// A response is delivered at most once: once the call it answers has been
/// taken out, the same request id finds nothing more.
pub proof fn lemma_completed_once(s: Seq<PendingView>, request_id: Seq<char>)
    requires
        request_ids(s).no_duplicates(),
        request_ids(s).contains(request_id),
    ensures
        !request_ids(s.remove(request_ids(s).index_of(request_id))).contains(request_id),
{
    let k = request_ids(s).index_of(request_id);
    let rest = s.remove(k);
    if request_ids(rest).contains(request_id) {
        let j = choose|j: int| 0 <= j < request_ids(rest).len() && request_ids(rest)[j] == request_id;
        let oj = if j < k { j } else { j + 1 };
        assert(request_ids(rest)[j] == request_ids(s)[oj]);
        assert(request_ids(s)[k] == request_id);
    }
}

} // verus!
