//! Handles that identify enqueued messages.

use std::marker::PhantomData;
use std::sync::atomic::AtomicU64;
use std::sync::atomic::Ordering;
use vstd::prelude::*;

verus! {

/// Identity of a handle: the generator that made it and its number within that generator.
#[derive(Clone, Copy, Debug, Eq, PartialEq, Hash)]
pub struct RawHandle {
    generator_id: u64,
    handle_id: u64,
}

impl RawHandle {
    pub closed spec fn generator_id_spec(self) -> u64 {
        self.generator_id
    }

    pub closed spec fn handle_id_spec(self) -> u64 {
        self.handle_id
    }

    /// The raw handle with the given identity.
    pub closed spec fn spec_new(generator_id: u64, handle_id: u64) -> RawHandle {
        RawHandle { generator_id, handle_id }
    }

    /// Two raw handles are equal exactly when their generator and handle ids are.
    pub proof fn lemma_identity(a: RawHandle, b: RawHandle)
        ensures
            (a == b) <==> (a.generator_id_spec() == b.generator_id_spec() && a.handle_id_spec()
                == b.handle_id_spec()),
            RawHandle::spec_new(a.generator_id_spec(), a.handle_id_spec()) == a,
            forall|g: u64, h: u64|
                #![trigger RawHandle::spec_new(g, h)]
                RawHandle::spec_new(g, h).generator_id_spec() == g
                    && RawHandle::spec_new(g, h).handle_id_spec() == h,
    {
    }

    pub fn generator_id(&self) -> (res: u64)
        ensures
            res == self.generator_id_spec(),
    {
        self.generator_id
    }

    pub fn handle_id(&self) -> (res: u64)
        ensures
            res == self.handle_id_spec(),
    {
        self.handle_id
    }
}

/// A type of handle that wraps a [`RawHandle`].
pub trait Handle: Sized {
    /// The raw handle that this handle wraps.
    spec fn raw_spec(&self) -> RawHandle;

    fn from_raw(handle: RawHandle) -> (res: Self)
        ensures
            res.raw_spec() == handle,
    ;
}

/// Hands out handles of one generator, numbered by `next_handle_id`.
#[derive(Debug)]
pub struct HandleGenerator<H> {
    /// This ID binds the handles to the generator instance, i.e. it is possible to
    /// distinguish handles generated by different generators.
    generator_id: u64,
    next_handle_id: u64,
    handle_type: PhantomData<H>,
}

impl<H: Handle> HandleGenerator<H> {
    pub closed spec fn generator_id_spec(self) -> u64 {
        self.generator_id
    }

    pub closed spec fn next_handle_id_spec(self) -> u64 {
        self.next_handle_id
    }

    /// Hands out the handle numbered `next_handle_id`; the next number is one more, wrapping
    /// around at `u64::MAX`.
    pub fn generate(&mut self) -> (res: H)
        ensures
            res.raw_spec() == RawHandle::spec_new(
                old(self).generator_id_spec(),
                old(self).next_handle_id_spec(),
            ),
            final(self).generator_id_spec() == old(self).generator_id_spec(),
            final(self).next_handle_id_spec() == next_handle_id_after(
                old(self).next_handle_id_spec(),
            ),
    {
        let handle_id = self.next_handle_id;
        self.next_handle_id = self.next_handle_id.wrapping_add(1);
        H::from_raw(RawHandle { generator_id: self.generator_id, handle_id })
    }
}

/// The handle number that follows `n`: one more, wrapping around at `u64::MAX`.
pub open spec fn next_handle_id_after(n: u64) -> u64 {
    if n == u64::MAX {
        0
    } else {
        (n + 1) as u64
    }
}

/// The handle number after `k` handles were handed out from number `n`.
pub open spec fn handle_id_after(n: u64, k: nat) -> u64
    decreases k,
{
    if k == 0 {
        n
    } else {
        next_handle_id_after(handle_id_after(n, (k - 1) as nat))
    }
}

/// After `k` handles, the handle number is `n + k` modulo 2^64.
pub proof fn lemma_handle_id_after(n: u64, k: nat)
    ensures
        handle_id_after(n, k) as int == (n + k) % 0x1_0000_0000_0000_0000,
    decreases k,
{
    if k > 0 {
        lemma_handle_id_after(n, (k - 1) as nat);
        let m = 0x1_0000_0000_0000_0000int;
        let p = (n + k - 1) % m;
        assert((n + k) % m == if p + 1 == m { 0 } else { p + 1 }) by (nonlinear_arith)
            requires
                p == (n + k - 1) % m,
                m == 0x1_0000_0000_0000_0000int,
                n + k - 1 >= 0,
        ;
    }
}

/// A generator hands out distinct handles for as long as it is used: the handles of any two
/// of its first 2^64 calls differ.
pub proof fn lemma_handle_ids_distinct(n: u64, i: nat, j: nat)
    requires
        i < j < 0x1_0000_0000_0000_0000,
    ensures
        handle_id_after(n, i) != handle_id_after(n, j),
{
    lemma_handle_id_after(n, i);
    lemma_handle_id_after(n, j);
    let m = 0x1_0000_0000_0000_0000int;
    assert((n + i) % m != (n + j) % m) by (nonlinear_arith)
        requires
            0 <= i < j < m,
            n >= 0,
            m == 0x1_0000_0000_0000_0000int,
    ;
}

/// Handles that one generator hands out in two different states are distinct: the handle
/// number increases with every handle handed out.
pub proof fn lemma_generated_handles_distinct<H: Handle>(
    first: HandleGenerator<H>,
    later: HandleGenerator<H>,
    a: H,
    b: H,
)
    requires
        first.generator_id_spec() == later.generator_id_spec(),
        first.next_handle_id_spec() < later.next_handle_id_spec(),
        a.raw_spec() == RawHandle::spec_new(first.generator_id_spec(), first.next_handle_id_spec()),
        b.raw_spec() == RawHandle::spec_new(later.generator_id_spec(), later.next_handle_id_spec()),
    ensures
        a.raw_spec() != b.raw_spec(),
{
}

/// How many handles a run of calls handed out.
pub open spec fn handed_count<H>(handed: Seq<Option<H>>) -> nat
    decreases handed.len(),
{
    if handed.len() == 0 {
        0
    } else {
        handed_count(handed.drop_last()) + if handed.last() is Some {
            1nat
        } else {
            0nat
        }
    }
}

/// A call on a generator: it hands out the next handle, or leaves the generator as it is.
pub open spec fn generator_step<H: Handle>(
    before: HandleGenerator<H>,
    after: HandleGenerator<H>,
    handed: Option<H>,
) -> bool {
    &&& after.generator_id_spec() == before.generator_id_spec()
    &&& match handed {
        Some(h) => {
            &&& h.raw_spec() == RawHandle::spec_new(
                before.generator_id_spec(),
                before.next_handle_id_spec(),
            )
            &&& after.next_handle_id_spec() == next_handle_id_after(before.next_handle_id_spec())
        },
        None => after.next_handle_id_spec() == before.next_handle_id_spec(),
    }
}

/// Along a run of calls, the generator's state after the first `i` calls.
proof fn lemma_run_position<H: Handle>(gens: Seq<HandleGenerator<H>>, handed: Seq<Option<H>>, i: int)
    requires
        gens.len() == handed.len() + 1,
        forall|k: int| 0 <= k < handed.len() ==> generator_step(gens[k], #[trigger] gens[k + 1], handed[k]),
        0 <= i <= handed.len(),
    ensures
        gens[i].generator_id_spec() == gens[0].generator_id_spec(),
        gens[i].next_handle_id_spec() == handle_id_after(
            gens[0].next_handle_id_spec(),
            handed_count(handed.take(i)),
        ),
    decreases i,
{
    if i > 0 {
        let k = i - 1;
        lemma_run_position(gens, handed, k);
        assert(generator_step(gens[k], gens[k + 1], handed[k]));
        assert(handed.take(i).drop_last() =~= handed.take(k));
    }
}

/// The count of handles grows along a run.
proof fn lemma_count_grows<H>(handed: Seq<Option<H>>, i: int, j: int)
    requires
        0 <= i <= j <= handed.len(),
    ensures
        handed_count(handed.take(i)) <= handed_count(handed.take(j)),
        i < j && handed[i] is Some ==> handed_count(handed.take(i)) < handed_count(handed.take(j)),
    decreases j - i,
{
    if i < j {
        lemma_count_grows(handed, i, j - 1);
        assert(handed.take(j).drop_last() =~= handed.take(j - 1));
        if j - 1 == i {
            assert(handed.take(j).last() == handed[i]);
        }
    }
}

/// Over a run of calls on a generator (enqueueing messages, or anything that leaves it as it
/// is), the handles handed out are all distinct, for the first 2^64 of them.
pub proof fn lemma_run_handles_distinct<H: Handle>(gens: Seq<HandleGenerator<H>>, handed: Seq<Option<H>>)
    requires
        gens.len() == handed.len() + 1,
        forall|k: int| 0 <= k < handed.len() ==> generator_step(gens[k], #[trigger] gens[k + 1], handed[k]),
        handed_count(handed) <= 0x1_0000_0000_0000_0000,
    ensures
        forall|i: int, j: int|
            0 <= i < j < handed.len() && #[trigger] handed[i] is Some && #[trigger] handed[j] is Some
                ==> handed[i]->0.raw_spec() != handed[j]->0.raw_spec(),
{
    assert forall|i: int, j: int|
        0 <= i < j < handed.len() && #[trigger] handed[i] is Some && #[trigger] handed[j] is Some
            implies handed[i]->0.raw_spec() != handed[j]->0.raw_spec() by {
        lemma_run_position(gens, handed, i);
        lemma_run_position(gens, handed, j);
        lemma_count_grows(handed, i, j);
        lemma_count_grows(handed, j, j + 1);
        lemma_count_grows(handed, j + 1, handed.len() as int);
        assert(handed.take(handed.len() as int) =~= handed);
        assert(handed.take(j + 1).drop_last() =~= handed.take(j));
        let (a, b) = (i, j);
        assert(generator_step(gens[a], gens[a + 1], handed[a]));
        assert(generator_step(gens[b], gens[b + 1], handed[b]));
        lemma_handle_ids_distinct(
            gens[0].next_handle_id_spec(),
            handed_count(handed.take(i)),
            handed_count(handed.take(j)),
        );
        RawHandle::lemma_identity(handed[i]->0.raw_spec(), handed[j]->0.raw_spec());
    }
}

/// Makes handle generators, each with its own generator id.
#[derive(Debug)]
pub struct HandleGeneratorGenerator<H> {
    next_handle_generator_id: AtomicU64,
    handle_type: PhantomData<H>,
}

impl<H: Handle> HandleGeneratorGenerator<H> {
    pub fn new() -> (res: Self) {
        Self { next_handle_generator_id: AtomicU64::new(0), handle_type: PhantomData }
    }

    /// A fresh generator: its first handle is numbered 0. Its generator id is taken from a
    /// counter that other threads may advance at the same time.
    pub fn generate(&self) -> (res: HandleGenerator<H>)
        ensures
            res.next_handle_id_spec() == 0,
    {
        // There is no synchronization required and we only care about each thread seeing a
        // unique value.
        let generator_id = self.next_handle_generator_id.fetch_add(1, Ordering::Relaxed);
        HandleGenerator { generator_id, next_handle_id: 0, handle_type: PhantomData }
    }
}

} // verus!
