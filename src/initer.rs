//! The allocator that numbers public, private and local variables.
use crate::variable::{Var, VariableType};
use vstd::prelude::*;

verus! {

/// The three counters of an allocator.
pub struct Counts {
    pub public: nat,
    pub private: nat,
    pub local: nat,
}

/// The three kinds of indexed variables.
pub enum Kind {
    Public,
    Private,
    Local,
}

/// One call of an allocator: `new_private`, `new_public(is_private)` or `new_local`.
pub enum Alloc {
    Private,
    Public(bool),
    Local,
}

/// The kind of variable that a call hands out.
pub open spec fn alloc_kind(a: Alloc) -> Kind {
    match a {
        Alloc::Private => Kind::Private,
        Alloc::Public(is_private) => if is_private {
            Kind::Private
        } else {
            Kind::Public
        },
        Alloc::Local => Kind::Local,
    }
}

/// The counter of one kind.
pub open spec fn counter(c: Counts, k: Kind) -> nat {
    match k {
        Kind::Public => c.public,
        Kind::Private => c.private,
        Kind::Local => c.local,
    }
}

/// The variable of a kind with the given index.
pub open spec fn slot(k: Kind, i: nat) -> Var {
    match k {
        Kind::Public => Var::Public(i),
        Kind::Private => Var::Private(i),
        Kind::Local => Var::Local(i),
    }
}

/// The counters with the one of kind `k` raised by one.
pub open spec fn bump(c: Counts, k: Kind) -> Counts {
    match k {
        Kind::Public => Counts { public: c.public + 1, ..c },
        Kind::Private => Counts { private: c.private + 1, ..c },
        Kind::Local => Counts { local: c.local + 1, ..c },
    }
}

/// What a call returns from counters `c`.
pub open spec fn alloc_result(c: Counts, a: Alloc) -> Var {
    slot(alloc_kind(a), counter(c, alloc_kind(a)))
}

/// The counters after a call from counters `c`.
pub open spec fn alloc_step(c: Counts, a: Alloc) -> Counts {
    bump(c, alloc_kind(a))
}

/// The counters after a sequence of calls from `c`.
pub open spec fn run_counts(c: Counts, calls: Seq<Alloc>) -> Counts
    decreases calls.len(),
{
    if calls.len() == 0 {
        c
    } else {
        alloc_step(run_counts(c, calls.drop_last()), calls.last())
    }
}

/// What each call of a sequence from `c` returns, in call order.
pub open spec fn run_results(c: Counts, calls: Seq<Alloc>) -> Seq<Var>
    decreases calls.len(),
{
    if calls.len() == 0 {
        Seq::empty()
    } else {
        run_results(c, calls.drop_last()).push(
            alloc_result(run_counts(c, calls.drop_last()), calls.last()),
        )
    }
}

/// How many calls of a sequence hand out a variable of kind `k`.
pub open spec fn count_kind(calls: Seq<Alloc>, k: Kind) -> nat
    decreases calls.len(),
{
    if calls.len() == 0 {
        0
    } else {
        count_kind(calls.drop_last(), k) + if alloc_kind(calls.last()) == k {
            1nat
        } else {
            0nat
        }
    }
}

/// Index density: over any sequence of allocator calls from counters `c`, each call hands
/// out the variable of its kind whose index is that kind's counter in `c` plus the number of
/// earlier calls of the same kind, and each counter ends raised by the number of calls of its
/// kind. From a fresh allocator, the `k`-th call of a kind thus gets index `k`: the indices
/// of each kind are dense, zero-based and in call order, none skipped or reused.
pub proof fn lemma_allocation_density(c: Counts, calls: Seq<Alloc>)
    ensures
        run_results(c, calls).len() == calls.len(),
        forall|i: int|
            0 <= i < calls.len() ==> #[trigger] run_results(c, calls)[i] == slot(
                alloc_kind(calls[i]),
                counter(c, alloc_kind(calls[i])) + count_kind(
                    calls.subrange(0, i),
                    alloc_kind(calls[i]),
                ),
            ),
        forall|k: Kind| #[trigger] counter(run_counts(c, calls), k) == counter(c, k) + count_kind(calls, k),
    decreases calls.len(),
{
    if calls.len() > 0 {
        let n = calls.len() - 1;
        let before = calls.drop_last();
        lemma_allocation_density(c, before);
        assert(calls.subrange(0, n as int) =~= before);
        assert forall|i: int| 0 <= i < calls.len() implies #[trigger] run_results(c, calls)[i] == slot(
            alloc_kind(calls[i]),
            counter(c, alloc_kind(calls[i])) + count_kind(calls.subrange(0, i), alloc_kind(calls[i])),
        ) by {
            if i < n {
                assert(run_results(c, calls)[i] == run_results(c, before)[i]);
                assert(calls.subrange(0, i) =~= before.subrange(0, i));
            }
        }
        assert forall|k: Kind| #[trigger] counter(run_counts(c, calls), k) == counter(c, k)
            + count_kind(calls, k) by {
            assert(counter(run_counts(c, before), k) == counter(c, k) + count_kind(before, k));
        }
    }
}

/// Hands out dense, zero-based indices for each kind of variable, in call order.
#[derive(Debug, Clone, Copy)]
pub struct VariableIniter {
    private_idx: u64,
    public_idx: u64,
    local_idx: u64,
}

impl View for VariableIniter {
    type V = Counts;

    closed spec fn view(&self) -> Counts {
        Counts {
            public: self.public_idx as nat,
            private: self.private_idx as nat,
            local: self.local_idx as nat,
        }
    }
}

impl Default for VariableIniter {
    fn default() -> (r: VariableIniter)
        ensures
            r@ == (Counts { public: 0, private: 0, local: 0 }),
    {
        VariableIniter::new()
    }
}

impl VariableIniter {
    /// A fresh allocator: every counter at zero.
    pub fn new() -> (r: VariableIniter)
        ensures
            r@ == (Counts { public: 0, private: 0, local: 0 }),
    {
        VariableIniter { private_idx: 0, public_idx: 0, local_idx: 0 }
    }

    pub fn new_private(&mut self) -> (r: VariableType)
        requires
            old(self)@.private < u64::MAX,
        ensures
            r@ == Var::Private(old(self)@.private),
            final(self)@ == (Counts { private: old(self)@.private + 1, ..old(self)@ }),
            r@ == alloc_result(old(self)@, Alloc::Private),
            final(self)@ == alloc_step(old(self)@, Alloc::Private),
    {
        let idx = self.private_idx;
        self.private_idx = self.private_idx + 1;
        VariableType::Private(idx)
    }

    /// A public variable, or a private one where `is_private` is set.
    pub fn new_public(&mut self, is_private: bool) -> (r: VariableType)
        requires
            is_private ==> old(self)@.private < u64::MAX,
            !is_private ==> old(self)@.public < u64::MAX,
        ensures
            is_private ==> r@ == Var::Private(old(self)@.private),
            is_private ==> final(self)@ == (Counts { private: old(self)@.private + 1, ..old(self)@ }),
            !is_private ==> r@ == Var::Public(old(self)@.public),
            !is_private ==> final(self)@ == (Counts { public: old(self)@.public + 1, ..old(self)@ }),
            r@ == alloc_result(old(self)@, Alloc::Public(is_private)),
            final(self)@ == alloc_step(old(self)@, Alloc::Public(is_private)),
    {
        if is_private {
            self.new_private()
        } else {
            let idx = self.public_idx;
            self.public_idx = self.public_idx + 1;
            VariableType::Public(idx)
        }
    }

    pub fn new_local(&mut self) -> (r: VariableType)
        requires
            old(self)@.local < u64::MAX,
        ensures
            r@ == Var::Local(old(self)@.local),
            final(self)@ == (Counts { local: old(self)@.local + 1, ..old(self)@ }),
            r@ == alloc_result(old(self)@, Alloc::Local),
            final(self)@ == alloc_step(old(self)@, Alloc::Local),
    {
        let idx = self.local_idx;
        self.local_idx = self.local_idx + 1;
        VariableType::Local(idx)
    }

    /// How many private variables were handed out.
    pub fn private_index(&self) -> (r: u64)
        ensures
            r == self@.private,
    {
        self.private_idx
    }

    /// How many public variables were handed out.
    pub fn public_index(&self) -> (r: u64)
        ensures
            r == self@.public,
    {
        self.public_idx
    }

    /// How many local variables were handed out.
    pub fn local_index(&self) -> (r: u64)
        ensures
            r == self@.local,
    {
        self.local_idx
    }
}

} // verus!
