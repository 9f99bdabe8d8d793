//! The memoized upstream client: one coalescing cache per request context.
//! Within one request, all upstream calls with equal descriptors are
//! collapsed into a single outbound call whose outcome — success or fault —
//! is shared by every caller.
//!
//! The loader itself is a state machine over plain values: `begin_load`
//! decides whether a caller must dispatch the outbound call or coalesce
//! onto one already in flight, `complete_load` records the outcome, and
//! `poll` reads the shared entry. The surrounding executor performs the
//! actual network transfer between `begin_load` and `complete_load`.

use vstd::prelude::*;

use crate::http::clone_descriptor;
use crate::http::descriptor_eq;
use crate::http::DescriptorKey;
use crate::http::RequestDescriptor;
use crate::http::Response;

verus! {

/// The outcome of one upstream call: a response, or a transport fault. A
/// fault is cached exactly like a success, so concurrent duplicate callers
/// observe the same fault rather than each retrying independently.
#[derive(Debug)]
pub enum LoadResult {
    Success(Response),
    Fault(String),
}

/// The state of one coalescing-cache entry: the outbound call is in
/// flight, or its outcome has been recorded.
#[derive(Debug)]
pub enum LoadEntry {
    InFlight,
    Done(LoadResult),
}

/// What a `load` caller must do: dispatch the outbound call itself, or
/// coalesce onto the entry another caller already owns.
#[derive(Debug)]
pub enum LoadAction {
    Dispatch,
    Coalesced,
}

/// One instance per incoming GraphQL operation. It owns the coalescing
/// cache and the ambient environment entries that resolvers consume, and
/// it is discarded when the response is complete, so no entry outlives the
/// request or becomes observable by a different request's context.
pub struct RequestContext {
    pub cache: Vec<(RequestDescriptor, LoadEntry)>,
    pub env: Vec<(String, String)>,
}

/// The first cache entry stored under key `k`, where one exists. Keys are
/// unique in a well-formed context, so the first match is the only one.
pub open spec fn cache_lookup(
    entries: Seq<(RequestDescriptor, LoadEntry)>,
    k: DescriptorKey,
) -> Option<LoadEntry>
    decreases entries.len(),
{
    if entries.len() == 0 {
        None
    } else if entries[0].0.key() == k {
        Some(entries[0].1)
    } else {
        cache_lookup(entries.drop_first(), k)
    }
}

impl RequestContext {
    /// Whether the coalescing cache holds an entry for key `k`.
    pub open spec fn contains_key(&self, k: DescriptorKey) -> bool {
        exists|i: int| 0 <= i < self.cache@.len() && (#[trigger] self.cache@[i]).0.key() == k
    }

    /// The entry stored under key `k`, where one exists.
    pub open spec fn lookup(&self, k: DescriptorKey) -> Option<LoadEntry> {
        cache_lookup(self.cache@, k)
    }

    /// Well-formedness: cache keys are pairwise distinct, so an entry is
    /// determined by its descriptor.
    pub open spec fn wf(&self) -> bool {
        forall|i: int, j: int|
            0 <= i < j < self.cache@.len() ==> (#[trigger] self.cache@[i]).0.key() != (
            #[trigger] self.cache@[j]).0.key()
    }
}

/// How `begin_load` moves a request context: the caller is told to
/// dispatch exactly when the key was absent, in which case an in-flight
/// entry is appended and nothing else changes; a coalescing caller leaves
/// the context untouched. Either way the key is present afterwards.
pub open spec fn begin_load_transition(
    pre: RequestContext,
    d: RequestDescriptor,
    post: RequestContext,
    a: LoadAction,
) -> bool {
    &&& (a is Dispatch <==> !pre.contains_key(d.key()))
    &&& post.contains_key(d.key())
    &&& post.env == pre.env
    &&& (a is Coalesced ==> post == pre)
    &&& (a is Dispatch ==> {
        &&& post.cache@.len() == pre.cache@.len() + 1
        &&& forall|i: int| 0 <= i < pre.cache@.len() ==> post.cache@[i] == pre.cache@[i]
        &&& post.cache@.last().0.key() == d.key()
        &&& post.cache@.last().1 is InFlight
    })
}

/// How `complete_load` moves a request context: the entry under the
/// descriptor's key now carries the recorded outcome, and every other
/// entry is untouched.
pub open spec fn complete_load_transition(
    pre: RequestContext,
    d: RequestDescriptor,
    result: LoadResult,
    post: RequestContext,
) -> bool {
    &&& post.env == pre.env
    &&& post.cache@.len() == pre.cache@.len()
    &&& post.lookup(d.key()) matches Some(e) && e matches LoadEntry::Done(r) && r == result
    &&& forall|k: DescriptorKey| k != d.key() ==> post.lookup(k) == pre.lookup(k)
}

/// The keys of the in-flight entries, in the order the calls were first
/// issued: what one flush of the batching window dispatches.
pub open spec fn pending_keys(entries: Seq<(RequestDescriptor, LoadEntry)>) -> Seq<DescriptorKey>
    decreases entries.len(),
{
    if entries.len() == 0 {
        Seq::<DescriptorKey>::empty()
    } else {
        pending_keys(entries.drop_last()) + (if entries.last().1 is InFlight {
            seq![entries.last().0.key()]
        } else {
            Seq::<DescriptorKey>::empty()
        })
    }
}

proof fn lemma_cache_lookup_step(
    entries: Seq<(RequestDescriptor, LoadEntry)>,
    k: DescriptorKey,
    i: int,
)
    requires
        0 <= i < entries.len(),
        forall|m: int| 0 <= m < i ==> (#[trigger] entries[m]).0.key() != k,
    ensures
        entries[i].0.key() == k ==> cache_lookup(entries, k) == Some(entries[i].1),
        (forall|m: int| 0 <= m <= i ==> (#[trigger] entries[m]).0.key() != k) ==> cache_lookup(
            entries,
            k,
        ) == cache_lookup(entries.skip(i + 1), k),
    decreases i,
{
    if i == 0 {
        assert(entries.drop_first() =~= entries.skip(1));
    } else {
        lemma_cache_lookup_step(entries.drop_first(), k, i - 1);
        assert(entries.drop_first()[i - 1] == entries[i]);
        assert(forall|m: int|
            0 <= m < i - 1 ==> (#[trigger] entries.drop_first()[m]) == entries[m + 1]);
        assert(entries.drop_first().skip(i) =~= entries.skip(i + 1));
    }
}

/// A cache that holds an entry for a key resolves the lookup to one of its
/// positions, and an absent key resolves to nothing.
proof fn lemma_cache_lookup_absent(entries: Seq<(RequestDescriptor, LoadEntry)>, k: DescriptorKey)
    requires
        forall|m: int| 0 <= m < entries.len() ==> (#[trigger] entries[m]).0.key() != k,
    ensures
        cache_lookup(entries, k) is None,
    decreases entries.len(),
{
    if entries.len() > 0 {
        assert(forall|m: int|
            0 <= m < entries.len() - 1 ==> (#[trigger] entries.drop_first()[m]) == entries[m + 1]);
        lemma_cache_lookup_absent(entries.drop_first(), k);
    }
}

impl RequestContext {
    /// A fresh context for one incoming operation: its coalescing cache is
    /// empty, and it owns the given ambient environment entries.
    pub fn new(env: Vec<(String, String)>) -> (r: RequestContext)
        ensures
            r.cache@.len() == 0,
            r.env == env,
            r.wf(),
    {
        RequestContext { cache: Vec::new(), env }
    }

    /// Find the cache position holding the descriptor's key, where one
    /// exists.
    #[verifier::loop_isolation(false)]
    fn find(&self, d: &RequestDescriptor) -> (r: Option<usize>)
        ensures
            match r {
                Some(i) => i < self.cache@.len() && self.cache@[i as int].0.key() == d.key()
                    && self.lookup(d.key()) == Some(self.cache@[i as int].1),
                None => !self.contains_key(d.key()) && self.lookup(d.key()) is None,
            },
    {
        let n = self.cache.len();
        let mut i: usize = 0;
        while i < n
            invariant
                i <= n,
                forall|m: int| 0 <= m < i ==> (#[trigger] self.cache@[m]).0.key() != d.key(),
            decreases n - i,
        {
            if descriptor_eq(&self.cache[i].0, d) {
                proof {
                    lemma_cache_lookup_step(self.cache@, d.key(), i as int);
                }
                return Some(i);
            }
            i += 1;
        }
        proof {
            lemma_cache_lookup_absent(self.cache@, d.key());
        }
        None
    }

    /// One caller's entry into a coalesced load: if no call with this
    /// descriptor is known to this context, an in-flight entry is recorded
    /// and the caller is told to dispatch the outbound call; otherwise the
    /// caller coalesces onto the existing entry and no second outbound
    /// call is made.
    pub fn begin_load(&mut self, d: &RequestDescriptor) -> (a: LoadAction)
        requires
            old(self).wf(),
        ensures
            final(self).wf(),
            begin_load_transition(*old(self), *d, *final(self), a),
    {
        match self.find(d) {
            Some(_) => LoadAction::Coalesced,
            None => {
                let entry = (clone_descriptor(d), LoadEntry::InFlight);
                self.cache.push(entry);
                proof {
                    assert(self.cache@.last().0.key() == d.key());
                    assert(forall|i: int|
                        0 <= i < old(self).cache@.len() ==> self.cache@[i] == old(self).cache@[i]);
                    assert(self.contains_key(d.key())) by {
                        assert(self.cache@[self.cache@.len() - 1].0.key() == d.key());
                    }
                }
                LoadAction::Dispatch
            },
        }
    }

    /// Record the outcome of the one outbound call made for this
    /// descriptor; every caller coalesced onto the entry observes exactly
    /// this outcome, success and fault alike.
    pub fn complete_load(&mut self, d: &RequestDescriptor, result: LoadResult)
        requires
            old(self).wf(),
            old(self).contains_key(d.key()),
        ensures
            final(self).wf(),
            complete_load_transition(*old(self), *d, result, *final(self)),
    {
        let found = self.find(d);
        match found {
            Some(i) => {
                self.cache[i].1 = LoadEntry::Done(result);
                proof {
                    let k = d.key();
                    let pre = *old(self);
                    assert(self.cache@ == pre.cache@.update(
                        i as int,
                        (pre.cache@[i as int].0, self.cache@[i as int].1),
                    ));
                    assert(forall|m: int|
                        0 <= m < i ==> (#[trigger] self.cache@[m]).0.key() != k);
                    lemma_cache_lookup_step(self.cache@, k, i as int);
                    assert forall|k2: DescriptorKey| k2 != k implies self.lookup(k2) == pre.lookup(
                        k2,
                    ) by {
                        lemma_lookup_update_other(pre.cache@, self.cache@, i as int, k2);
                    }
                }
            },
            None => {
                proof {
                    assert(false);
                }
            },
        }
    }

    /// The batching window's contents: one descriptor per distinct
    /// in-flight upstream call, in the order the calls were first issued.
    /// When the transport supports batched fetch, these are dispatched
    /// together on flush; duplicates were already coalesced when they
    /// entered.
    #[verifier::loop_isolation(false)]
    pub fn pending_descriptors(&self) -> (r: Vec<RequestDescriptor>)
        ensures
            r@.len() == pending_keys(self.cache@).len(),
            forall|i: int|
                0 <= i < r@.len() ==> (#[trigger] r@[i]).key() == pending_keys(self.cache@)[i],
    {
        let mut out: Vec<RequestDescriptor> = Vec::new();
        let n = self.cache.len();
        let mut i: usize = 0;
        while i < n
            invariant
                i <= n,
                out@.len() == pending_keys(self.cache@.take(i as int)).len(),
                forall|k: int|
                    0 <= k < out@.len() ==> (#[trigger] out@[k]).key() == pending_keys(
                        self.cache@.take(i as int),
                    )[k],
            decreases n - i,
        {
            proof {
                assert(self.cache@.take(i + 1).drop_last() =~= self.cache@.take(i as int));
                assert(self.cache@.take(i + 1).last() == self.cache@[i as int]);
            }
            match &self.cache[i].1 {
                LoadEntry::InFlight => {
                    out.push(clone_descriptor(&self.cache[i].0));
                },
                LoadEntry::Done(_) => {},
            }
            i += 1;
        }
        proof {
            assert(self.cache@.take(n as int) =~= self.cache@);
        }
        out
    }

    /// Read the shared entry for this descriptor, as every caller
    /// coalesced onto it does.
    pub fn poll<'a>(&'a self, d: &RequestDescriptor) -> (r: Option<&'a LoadEntry>)
        ensures
            match r {
                Some(e) => self.lookup(d.key()) == Some(*e),
                None => self.lookup(d.key()) is None,
            },
    {
        match self.find(d) {
            Some(i) => Some(&self.cache[i].1),
            None => None,
        }
    }
}

/// Two entry sequences that differ only at one position agree on every
/// lookup whose key is not the one stored at that position in either.
proof fn lemma_lookup_update_other(
    pre: Seq<(RequestDescriptor, LoadEntry)>,
    post: Seq<(RequestDescriptor, LoadEntry)>,
    i: int,
    k: DescriptorKey,
)
    requires
        0 <= i < pre.len(),
        post.len() == pre.len(),
        forall|m: int| 0 <= m < pre.len() && m != i ==> #[trigger] post[m] == pre[m],
        post[i].0.key() == pre[i].0.key(),
        k != pre[i].0.key(),
    ensures
        cache_lookup(post, k) == cache_lookup(pre, k),
    decreases pre.len(),
{
    if pre.len() > 0 {
        if i == 0 {
            assert(pre.drop_first() =~= post.drop_first());
        } else {
            assert(post[0] == pre[0]);
            if pre[0].0.key() == k {
            } else {
                assert(forall|m: int|
                    0 <= m < pre.drop_first().len() && m != i - 1 ==> #[trigger] post.drop_first()[m]
                        == pre.drop_first()[m]);
                assert(post.drop_first()[i - 1] == post[i]);
                assert(pre.drop_first()[i - 1] == pre[i]);
                lemma_lookup_update_other(pre.drop_first(), post.drop_first(), i - 1, k);
            }
        }
    }
}

/// Issuing any number of loads with one and the same descriptor key within
/// one request context results in at most one dispatch of the outbound
/// call: the first caller that finds the key absent dispatches, and every
/// later caller coalesces. All coalesced callers then read the one entry
/// stored under that key, so each receives a result consistent with the
/// single call's outcome.
pub proof fn lemma_load_dedup(
    states: Seq<RequestContext>,
    ds: Seq<RequestDescriptor>,
    acts: Seq<LoadAction>,
    k: DescriptorKey,
)
    requires
        states.len() == ds.len() + 1,
        acts.len() == ds.len(),
        ds.len() >= 1,
        forall|i: int|
            0 <= i < ds.len() ==> begin_load_transition(
                #[trigger] states[i],
                ds[i],
                states[i + 1],
                acts[i],
            ),
        forall|i: int| 0 <= i < ds.len() ==> (#[trigger] ds[i]).key() == k,
    ensures
        forall|i: int| 1 <= i < acts.len() ==> !((#[trigger] acts[i]) is Dispatch),
        !states[0].contains_key(k) ==> acts[0] is Dispatch,
        states[0].contains_key(k) ==> forall|i: int|
            0 <= i < acts.len() ==> !((#[trigger] acts[i]) is Dispatch),
        forall|i: int, j: int|
            0 <= i < j < acts.len() ==> !((#[trigger] acts[i]) is Dispatch && (
            #[trigger] acts[j]) is Dispatch),
{
    assert forall|i: int| 1 <= i < acts.len() implies !((#[trigger] acts[i]) is Dispatch) by {
        assert(begin_load_transition(states[i - 1], ds[i - 1], states[i], acts[i - 1]));
        assert(states[i].contains_key(k));
        assert(begin_load_transition(states[i], ds[i], states[i + 1], acts[i]));
    }
    if states[0].contains_key(k) {
        assert(begin_load_transition(states[0], ds[0], states[1], acts[0]));
    }
}

/// Two loads with distinct descriptor keys are never coalesced with each
/// other: if neither key has been seen by the context, both callers are
/// told to dispatch their own outbound call.
pub proof fn lemma_distinct_keys_both_dispatch(
    pre: RequestContext,
    d1: RequestDescriptor,
    mid: RequestContext,
    a1: LoadAction,
    d2: RequestDescriptor,
    post: RequestContext,
    a2: LoadAction,
)
    requires
        begin_load_transition(pre, d1, mid, a1),
        begin_load_transition(mid, d2, post, a2),
        d1.key() != d2.key(),
        !pre.contains_key(d1.key()),
        !pre.contains_key(d2.key()),
    ensures
        a1 is Dispatch,
        a2 is Dispatch,
{
    assert(!mid.contains_key(d2.key())) by {
        if mid.contains_key(d2.key()) {
            let i = choose|i: int|
                0 <= i < mid.cache@.len() && (#[trigger] mid.cache@[i]).0.key() == d2.key();
            assert(i < pre.cache@.len() || i == mid.cache@.len() - 1);
        }
    }
}

/// Equal descriptor keys force every canonical part of the two
/// descriptors to agree; read the other way round, two descriptors that
/// differ in as much as one header, in the body, in the URL or in the
/// method have distinct keys and are therefore never coalesced.
pub proof fn lemma_equal_keys_equal_parts(d1: RequestDescriptor, d2: RequestDescriptor)
    requires
        d1.key() == d2.key(),
    ensures
        d1.method == d2.method,
        d1.url@ == d2.url@,
        crate::http::string_pairs_view(d1.headers@) == crate::http::string_pairs_view(d2.headers@),
        match (d1.body, d2.body) {
            (Some(b1), Some(b2)) => b1@ == b2@,
            (None, None) => true,
            _ => false,
        },
{
    assert(d1.key().method == d2.key().method);
    assert(d1.key().url == d2.key().url);
    assert(d1.key().headers == d2.key().headers);
    assert(d1.key().body == d2.key().body);
}

/// A request context whose cache is empty — as every context is at
/// creation — holds no entry observable under any key. A different
/// request's context is a different owned value, so nothing one request
/// caches is ever observable through another request's fresh context.
pub proof fn lemma_fresh_context_observes_nothing(ctx: RequestContext, k: DescriptorKey)
    requires
        ctx.cache@.len() == 0,
    ensures
        !ctx.contains_key(k),
        ctx.lookup(k) is None,
{
}

} // verus!
