//! The layout of a circuit's inputs, and the two walks over it that must agree: the
//! allocation of variables and the flattening of a witness.
use crate::initer::{Counts, VariableIniter};
use crate::types::{values_of, PublicWitness, Witness};
use crate::value::FieldValue;
use crate::variable::{vars_of, Var, VariableType};
use vstd::prelude::*;

verus! {

/// How many leaves of `leaves` go public when `is_private` is forced from above.
pub open spec fn count_public(leaves: Seq<bool>, is_private: bool) -> nat
    decreases leaves.len(),
{
    if leaves.len() == 0 {
        0
    } else {
        count_public(leaves.drop_last(), is_private) + if leaves.last() && !is_private {
            1nat
        } else {
            0nat
        }
    }
}

/// How many leaves of `leaves` go private when `is_private` is forced from above.
pub open spec fn count_private(leaves: Seq<bool>, is_private: bool) -> nat {
    (leaves.len() - count_public(leaves, is_private)) as nat
}

/// The reference that each leaf receives, in declaration order, from an allocator at `c`.
pub open spec fn element_refs(c: Counts, leaves: Seq<bool>, is_private: bool) -> Seq<Var>
    decreases leaves.len(),
{
    if leaves.len() == 0 {
        Seq::empty()
    } else {
        let before = leaves.drop_last();
        let r = if leaves.last() && !is_private {
            Var::Public(c.public + count_public(before, is_private))
        } else {
            Var::Private(c.private + count_private(before, is_private))
        };
        element_refs(c, before, is_private).push(r)
    }
}

/// The allocator's counters after the leaves were allocated from `c`.
pub open spec fn counts_after(c: Counts, leaves: Seq<bool>, is_private: bool) -> Counts {
    Counts {
        public: c.public + count_public(leaves, is_private),
        private: c.private + count_private(leaves, is_private),
        local: c.local,
    }
}

/// The values of the leaves that go public, in declaration order.
pub open spec fn public_values(values: Seq<int>, leaves: Seq<bool>, is_private: bool) -> Seq<int>
    decreases leaves.len(),
{
    if leaves.len() == 0 || values.len() == 0 {
        Seq::empty()
    } else {
        let rest = public_values(values.drop_last(), leaves.drop_last(), is_private);
        if leaves.last() && !is_private {
            rest.push(values.last())
        } else {
            rest
        }
    }
}

/// The values of the leaves that go private, in declaration order.
pub open spec fn private_values(values: Seq<int>, leaves: Seq<bool>, is_private: bool) -> Seq<int>
    decreases leaves.len(),
{
    if leaves.len() == 0 || values.len() == 0 {
        Seq::empty()
    } else {
        let rest = private_values(values.drop_last(), leaves.drop_last(), is_private);
        if leaves.last() && !is_private {
            rest
        } else {
            rest.push(values.last())
        }
    }
}

pub proof fn lemma_count_public_le(leaves: Seq<bool>, is_private: bool)
    ensures
        count_public(leaves, is_private) <= leaves.len(),
        is_private ==> count_public(leaves, is_private) == 0,
    decreases leaves.len(),
{
    if leaves.len() > 0 {
        lemma_count_public_le(leaves.drop_last(), is_private);
    }
}

/// The walks have as many entries as there are leaves of each kind.
pub proof fn lemma_walk_lengths(c: Counts, leaves: Seq<bool>, values: Seq<int>, is_private: bool)
    requires
        values.len() == leaves.len(),
    ensures
        element_refs(c, leaves, is_private).len() == leaves.len(),
        public_values(values, leaves, is_private).len() == count_public(leaves, is_private),
        private_values(values, leaves, is_private).len() == count_private(leaves, is_private),
    decreases leaves.len(),
{
    lemma_count_public_le(leaves, is_private);
    if leaves.len() > 0 {
        lemma_walk_lengths(c, leaves.drop_last(), values.drop_last(), is_private);
        lemma_count_public_le(leaves.drop_last(), is_private);
    }
}

/// Allocation and witness flattening agree leaf for leaf: where the leaves are allocated
/// from an allocator at `c`, and their values appended to vectors that already hold
/// `c.public` public and `c.private` private values, the value found at index `k` of the
/// public vector is that of the leaf that received `Public(k)`, and likewise for `Private(k)`.
pub proof fn lemma_order_matches(
    c: Counts,
    leaves: Seq<bool>,
    values: Seq<int>,
    is_private: bool,
    public: Seq<int>,
    private: Seq<int>,
)
    requires
        values.len() == leaves.len(),
        public.len() == c.public,
        private.len() == c.private,
    ensures
        forall|i: int|
            0 <= i < leaves.len() ==> match #[trigger] element_refs(c, leaves, is_private)[i] {
                Var::Public(k) => k < public.len() + public_values(values, leaves, is_private).len()
                    && (public + public_values(values, leaves, is_private))[k as int] == values[i],
                Var::Private(k) => k < private.len() + private_values(values, leaves, is_private).len()
                    && (private + private_values(values, leaves, is_private))[k as int] == values[i],
                _ => false,
            },
    decreases leaves.len(),
{
    if leaves.len() > 0 {
        let n = leaves.len() - 1;
        let pl = leaves.drop_last();
        let pv = values.drop_last();
        lemma_order_matches(c, pl, pv, is_private, public, private);
        lemma_walk_lengths(c, pl, pv, is_private);
        lemma_walk_lengths(c, leaves, values, is_private);
        let refs = element_refs(c, leaves, is_private);
        let pubs = public_values(values, leaves, is_private);
        let privs = private_values(values, leaves, is_private);
        let ppubs = public_values(pv, pl, is_private);
        let pprivs = private_values(pv, pl, is_private);
        assert forall|i: int| 0 <= i < leaves.len() implies match #[trigger] refs[i] {
            Var::Public(k) => k < public.len() + pubs.len() && (public + pubs)[k as int]
                == values[i],
            Var::Private(k) => k < private.len() + privs.len() && (private + privs)[k as int]
                == values[i],
            _ => false,
        } by {
            if i < n {
                assert(refs[i] == element_refs(c, pl, is_private)[i]);
                assert(values[i] == pv[i]);
                match refs[i] {
                    Var::Public(k) => {
                        assert((public + ppubs)[k as int] == values[i]);
                        assert((public + pubs)[k as int] == (public + ppubs)[k as int]);
                    },
                    Var::Private(k) => {
                        assert((private + pprivs)[k as int] == values[i]);
                        assert((private + privs)[k as int] == (private + pprivs)[k as int]);
                    },
                    _ => {},
                }
            } else {
                assert(i == n);
            }
        }
    }
}

/// Where every leaf from index `m` on is declared private, those leaves receive private
/// references and add nothing to the public values.
proof fn lemma_private_tail(
    c: Counts,
    leaves: Seq<bool>,
    values: Seq<int>,
    m: int,
    is_private: bool,
)
    requires
        0 <= m <= leaves.len(),
        values.len() == leaves.len(),
        forall|j: int| m <= j < leaves.len() ==> !(#[trigger] leaves[j]),
    ensures
        forall|i: int|
            m <= i < leaves.len() ==> (#[trigger] element_refs(c, leaves, is_private)[i]) is Private,
        public_values(values, leaves, is_private) == public_values(
            values.subrange(0, m),
            leaves.subrange(0, m),
            is_private,
        ),
    decreases leaves.len(),
{
    lemma_walk_lengths(c, leaves, values, is_private);
    if leaves.len() > m {
        let pl = leaves.drop_last();
        let pv = values.drop_last();
        lemma_private_tail(c, pl, pv, m, is_private);
        assert(pl.subrange(0, m) =~= leaves.subrange(0, m));
        assert(pv.subrange(0, m) =~= values.subrange(0, m));
        assert forall|i: int| m <= i < leaves.len() implies (#[trigger] element_refs(
            c,
            leaves,
            is_private,
        )[i]) is Private by {
            if i < leaves.len() - 1 {
                assert(element_refs(c, leaves, is_private)[i] == element_refs(c, pl, is_private)[i]);
            }
        }
    } else {
        assert(leaves.subrange(0, m) =~= leaves);
        assert(values.subrange(0, m) =~= values);
    }
}

/// Private dominates: a sub-circuit held in a field declared private receives only private
/// references and contributes no public value, whatever its own fields declare.
pub proof fn lemma_private_dominates(
    c: Counts,
    outer: Seq<bool>,
    sub: Seq<bool>,
    values: Seq<int>,
    is_private: bool,
)
    requires
        values.len() == outer.len() + sub.len(),
    ensures
        ({
            let leaves = outer + sub.map_values(|b: bool| false && b);
            &&& forall|i: int|
                outer.len() <= i < leaves.len() ==> (#[trigger] element_refs(
                    c,
                    leaves,
                    is_private,
                )[i]) is Private
            &&& public_values(values, leaves, is_private) == public_values(
                values.subrange(0, outer.len() as int),
                outer,
                is_private,
            )
        }),
{
    let leaves = outer + sub.map_values(|b: bool| false && b);
    assert forall|j: int| outer.len() <= j < leaves.len() implies !(#[trigger] leaves[j]) by {}
    lemma_private_tail(c, leaves, values, outer.len() as int, is_private);
    assert(leaves.subrange(0, outer.len() as int) =~= outer);
}

/// Where no leaf goes public, the leaves receive consecutive private references.
proof fn lemma_all_private_refs(c: Counts, leaves: Seq<bool>, is_private: bool)
    requires
        forall|j: int| 0 <= j < leaves.len() ==> !(#[trigger] leaves[j]) || is_private,
    ensures
        count_public(leaves, is_private) == 0,
        element_refs(c, leaves, is_private).len() == leaves.len(),
        forall|i: int|
            0 <= i < leaves.len() ==> #[trigger] element_refs(c, leaves, is_private)[i]
                == Var::Private(c.private + i as nat),
    decreases leaves.len(),
{
    if leaves.len() > 0 {
        let pl = leaves.drop_last();
        lemma_all_private_refs(c, pl, is_private);
        lemma_count_public_le(pl, is_private);
        assert forall|i: int| 0 <= i < leaves.len() implies #[trigger] element_refs(
            c,
            leaves,
            is_private,
        )[i] == Var::Private(c.private + i as nat) by {
            if i < leaves.len() - 1 {
                assert(element_refs(c, leaves, is_private)[i] == element_refs(c, pl, is_private)[i]);
            }
        }
    }
}

/// Where every leaf goes public, the leaves receive consecutive public references.
proof fn lemma_all_public_refs(c: Counts, leaves: Seq<bool>)
    requires
        forall|j: int| 0 <= j < leaves.len() ==> #[trigger] leaves[j],
    ensures
        count_public(leaves, false) == leaves.len(),
        element_refs(c, leaves, false).len() == leaves.len(),
        forall|i: int|
            0 <= i < leaves.len() ==> #[trigger] element_refs(c, leaves, false)[i] == Var::Public(
                c.public + i as nat,
            ),
    decreases leaves.len(),
{
    if leaves.len() > 0 {
        let pl = leaves.drop_last();
        lemma_all_public_refs(c, pl);
        assert forall|i: int| 0 <= i < leaves.len() implies #[trigger] element_refs(
            c,
            leaves,
            false,
        )[i] == Var::Public(c.public + i as nat) by {
            if i < leaves.len() - 1 {
                assert(element_refs(c, leaves, false)[i] == element_refs(c, pl, false)[i]);
            }
        }
    }
}

/// `n` leaves that are all declared private.
pub open spec fn private_leaves(n: nat) -> Seq<bool> {
    Seq::new(n, |j: int| false)
}

/// `n` leaves that are all declared public.
pub open spec fn public_leaves(n: nat) -> Seq<bool> {
    Seq::new(n, |j: int| true)
}

/// Index density: `n` private leaves allocated from a fresh allocator receive
/// `Private(0)`, ..., `Private(n - 1)` in order, and `n` public leaves receive
/// `Public(0)`, ..., `Public(n - 1)`.
pub proof fn lemma_index_density(n: nat)
    ensures
        forall|i: int|
            0 <= i < n ==> #[trigger] element_refs(
                Counts { public: 0, private: 0, local: 0 },
                private_leaves(n),
                false,
            )[i] == Var::Private(i as nat),
        forall|i: int|
            0 <= i < n ==> #[trigger] element_refs(
                Counts { public: 0, private: 0, local: 0 },
                public_leaves(n),
                false,
            )[i] == Var::Public(i as nat),
{
    let c = Counts { public: 0, private: 0, local: 0 };
    lemma_all_private_refs(c, private_leaves(n), false);
    lemma_all_public_refs(c, public_leaves(n));
}

/// The layout of a circuit's inputs: one entry per leaf, in declaration order (depth first),
/// telling whether the leaf and every field around it are declared public.
#[derive(Debug, Clone, PartialEq, Eq)]
pub struct CircuitSchema {
    leaves: Vec<bool>,
}

impl View for CircuitSchema {
    type V = Seq<bool>;

    closed spec fn view(&self) -> Seq<bool> {
        self.leaves@
    }
}

impl CircuitSchema {
    /// A circuit with no inputs yet.
    pub fn new() -> (r: CircuitSchema)
        ensures
            r@ == Seq::<bool>::empty(),
    {
        CircuitSchema { leaves: Vec::new() }
    }

    /// A single primitive value (an integer or a boolean).
    pub fn leaf() -> (r: CircuitSchema)
        ensures
            r@ == seq![true],
    {
        let mut leaves: Vec<bool> = Vec::new();
        leaves.push(true);
        CircuitSchema { leaves }
    }

    /// The number of leaves.
    pub fn len(&self) -> (r: usize)
        ensures
            r == self@.len(),
    {
        self.leaves.len()
    }

    /// Adds a primitive field, declared public or private.
    pub fn push_leaf(&mut self, is_public: bool)
        ensures
            final(self)@ == old(self)@.push(is_public),
    {
        self.leaves.push(is_public);
    }

    /// Adds a field that holds a sub-circuit. A field declared private makes every leaf of
    /// the sub-circuit private, whatever the sub-circuit declares.
    pub fn push_field(&mut self, is_public: bool, sub: &CircuitSchema)
        ensures
            final(self)@ == old(self)@ + sub@.map_values(|b: bool| is_public && b),
    {
        let ghost start = self.leaves@;
        let mut i: usize = 0;
        while i < sub.leaves.len()
            invariant
                i <= sub.leaves@.len(),
                self.leaves@ == start + sub.leaves@.subrange(0, i as int).map_values(
                    |b: bool| is_public && b,
                ),
            decreases sub.leaves@.len() - i,
        {
            self.leaves.push(is_public && sub.leaves[i]);
            i += 1;
            assert(self.leaves@ =~= start + sub.leaves@.subrange(0, i as int).map_values(
                |b: bool| is_public && b,
            ));
        }
        assert(sub.leaves@.subrange(0, i as int) =~= sub.leaves@);
    }

    /// Allocates a variable for each leaf, in declaration order: a public one for a leaf
    /// that goes public, a private one otherwise. With `is_private` set, every leaf goes
    /// private.
    pub fn create_public(&self, initer: &mut VariableIniter, is_private: bool) -> (r: Vec<
        VariableType,
    >)
        requires
            old(initer)@.public + self@.len() <= u64::MAX,
            old(initer)@.private + self@.len() <= u64::MAX,
        ensures
            vars_of(r@) == element_refs(old(initer)@, self@, is_private),
            final(initer)@ == counts_after(old(initer)@, self@, is_private),
    {
        let ghost c = initer@;
        let mut out: Vec<VariableType> = Vec::new();
        let mut i: usize = 0;
        while i < self.leaves.len()
            invariant
                i <= self.leaves@.len(),
                c.public + self.leaves@.len() <= u64::MAX,
                c.private + self.leaves@.len() <= u64::MAX,
                vars_of(out@) == element_refs(c, self.leaves@.subrange(0, i as int), is_private),
                initer@ == counts_after(c, self.leaves@.subrange(0, i as int), is_private),
            decreases self.leaves@.len() - i,
        {
            let ghost before = self.leaves@.subrange(0, i as int);
            let ghost after = self.leaves@.subrange(0, i + 1);
            proof {
                assert(after.drop_last() =~= before);
                lemma_count_public_le(before, is_private);
            }
            let goes_private = is_private || !self.leaves[i];
            let v = initer.new_public(goes_private);
            let ghost old_out = out@;
            out.push(v);
            i += 1;
            proof {
                assert(vars_of(out@) =~= vars_of(old_out).push(v@));
            }
        }
        assert(self.leaves@.subrange(0, i as int) =~= self.leaves@);
        out
    }

    /// Allocates a private variable for every leaf, in declaration order.
    pub fn create_private(&self, initer: &mut VariableIniter) -> (r: Vec<VariableType>)
        requires
            old(initer)@.public + self@.len() <= u64::MAX,
            old(initer)@.private + self@.len() <= u64::MAX,
        ensures
            vars_of(r@) == element_refs(old(initer)@, self@, true),
            final(initer)@ == counts_after(old(initer)@, self@, true),
    {
        self.create_public(initer, true)
    }

    /// Appends the value of each leaf, in declaration order, to the vector of its kind: a
    /// leaf that goes public to `public`, any other to `private`.
    pub fn append_witness(
        &self,
        values: &Vec<FieldValue>,
        public: &mut Vec<FieldValue>,
        private: &mut Vec<FieldValue>,
        is_private: bool,
    )
        requires
            values@.len() == self@.len(),
        ensures
            values_of(final(public)@) == values_of(old(public)@) + public_values(
                values_of(values@),
                self@,
                is_private,
            ),
            values_of(final(private)@) == values_of(old(private)@) + private_values(
                values_of(values@),
                self@,
                is_private,
            ),
    {
        let ghost pub0 = values_of(public@);
        let ghost priv0 = values_of(private@);
        let mut i: usize = 0;
        while i < self.leaves.len()
            invariant
                i <= self.leaves@.len(),
                values@.len() == self.leaves@.len(),
                values_of(public@) == pub0 + public_values(
                    values_of(values@).subrange(0, i as int),
                    self.leaves@.subrange(0, i as int),
                    is_private,
                ),
                values_of(private@) == priv0 + private_values(
                    values_of(values@).subrange(0, i as int),
                    self.leaves@.subrange(0, i as int),
                    is_private,
                ),
            decreases self.leaves@.len() - i,
        {
            let ghost vs = values_of(values@).subrange(0, i + 1);
            let ghost ls = self.leaves@.subrange(0, i + 1);
            proof {
                assert(vs.drop_last() =~= values_of(values@).subrange(0, i as int));
                assert(ls.drop_last() =~= self.leaves@.subrange(0, i as int));
            }
            let ghost old_pub = public@;
            let ghost old_priv = private@;
            let v = values[i].duplicate();
            if self.leaves[i] && !is_private {
                public.push(v);
                proof {
                    assert(values_of(public@) =~= values_of(old_pub).push(v@));
                }
            } else {
                private.push(v);
                proof {
                    assert(values_of(private@) =~= values_of(old_priv).push(v@));
                }
            }
            i += 1;
        }
        assert(self.leaves@.subrange(0, i as int) =~= self.leaves@);
        assert(values_of(values@).subrange(0, i as int) =~= values_of(values@));
    }

    /// Appends the value of each leaf that goes public, in declaration order.
    pub fn append_public_witness(
        &self,
        values: &Vec<FieldValue>,
        witness: &mut Vec<FieldValue>,
        is_private: bool,
    )
        requires
            values@.len() == self@.len(),
        ensures
            values_of(final(witness)@) == values_of(old(witness)@) + public_values(
                values_of(values@),
                self@,
                is_private,
            ),
    {
        let mut private: Vec<FieldValue> = Vec::new();
        self.append_witness(values, witness, &mut private, is_private);
    }

    /// The values of the public leaves, in declaration order: what a verifier receives.
    pub fn into_public_witness(&self, values: &Vec<FieldValue>) -> (r: Vec<FieldValue>)
        requires
            values@.len() == self@.len(),
        ensures
            values_of(r@) == public_values(values_of(values@), self@, false),
    {
        let mut out: Vec<FieldValue> = Vec::new();
        self.append_public_witness(values, &mut out, false);
        assert(values_of(out@) =~= Seq::<int>::empty() + public_values(values_of(values@), self@, false));
        out
    }
    /// The witness of the circuit: the values of the leaves that go public, then those that
    /// go private, each in declaration order. `None` where there is not one value per leaf.
    pub fn witness(&self, values: &Vec<FieldValue>) -> (r: Option<Witness>)
        ensures
            r is Some <==> values@.len() == self@.len(),
            r matches Some(w) ==> values_of(w.public@) == public_values(values_of(values@), self@, false)
                && values_of(w.private@) == private_values(values_of(values@), self@, false),
    {
        if values.len() != self.leaves.len() {
            return None;
        }
        let mut w = Witness::new();
        self.append_witness(values, &mut w.public, &mut w.private, false);
        assert(values_of(w.public@) =~= public_values(values_of(values@), self@, false));
        assert(values_of(w.private@) =~= private_values(values_of(values@), self@, false));
        Some(w)
    }

    /// The public witness of the circuit, from the values of its public leaves in declaration
    /// order. `None` where their number is not that of the public leaves.
    pub fn public_witness(&self, public: &Vec<FieldValue>) -> (r: Option<PublicWitness>)
        ensures
            r is Some <==> public@.len() == count_public(self@, false),
            r matches Some(w) ==> values_of(w.public@) == values_of(public@),
    {
        let mut n: usize = 0;
        let mut i: usize = 0;
        while i < self.leaves.len()
            invariant
                i <= self.leaves@.len(),
                n == count_public(self.leaves@.subrange(0, i as int), false),
                n <= i,
            decreases self.leaves@.len() - i,
        {
            proof {
                assert(self.leaves@.subrange(0, i + 1).drop_last() =~= self.leaves@.subrange(
                    0,
                    i as int,
                ));
            }
            if self.leaves[i] {
                n += 1;
            }
            i += 1;
        }
        assert(self.leaves@.subrange(0, i as int) =~= self.leaves@);
        if public.len() != n {
            return None;
        }
        Some(PublicWitness { public: crate::types::duplicate_values(public) })
    }
}

} // verus!
