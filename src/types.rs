//! The flattened circuit definition and the witness vectors.
use crate::initer::Counts;
use crate::value::FieldValue;
use crate::variable::{vars_of, Var, VariableType};
use vstd::prelude::*;

verus! {

/// The closed set of operation kinds of the constraint graph.
#[derive(Debug, Clone, Copy, PartialEq, Eq, Structural)]
pub enum OpCode {
    Add,
    MulAcc,
    Neg,
    Sub,
    Mul,
    DivUnchecked,
    Div,
    Inverse,
    ToBinary,
    FromBinary,
    Xor,
    Or,
    And,
    Select,
    Lookup2,
    IsZero,
    Cmp,
    AssertIsEqual,
    AssertIsDifferent,
    AssertIsBoolean,
    AssertIsCrumb,
    AssertIsLessOrEqual,
    Println,
}

/// The model of one operation.
pub struct OpView {
    pub op: OpCode,
    pub inputs: Seq<Var>,
    pub outputs: Seq<Var>,
}

/// One operation of the constraint graph: its kind, operands and results.
#[derive(Debug, Clone, PartialEq, Eq)]
pub struct Operation {
    pub op: OpCode,
    pub inputs: Vec<VariableType>,
    pub outputs: Vec<VariableType>,
}

impl View for Operation {
    type V = OpView;

    open spec fn view(&self) -> OpView {
        OpView { op: self.op, inputs: vars_of(self.inputs@), outputs: vars_of(self.outputs@) }
    }
}

/// The models of a sequence of operations.
pub open spec fn ops_of(ops: Seq<Operation>) -> Seq<OpView> {
    ops.map_values(|o: Operation| o@)
}

/// A reference whose index lies below the matching counter.
pub open spec fn var_in_range(v: Var, c: Counts) -> bool {
    match v {
        Var::Public(i) => i < c.public,
        Var::Private(i) => i < c.private,
        Var::Local(i) => i < c.local,
        Var::Constant(_) => true,
    }
}

pub open spec fn vars_in_range(vs: Seq<Var>, c: Counts) -> bool {
    forall|i: int| 0 <= i < vs.len() ==> var_in_range(#[trigger] vs[i], c)
}

pub open spec fn op_in_range(op: OpView, c: Counts) -> bool {
    vars_in_range(op.inputs, c) && vars_in_range(op.outputs, c)
}

/// Every reference of every operation lies below its counter.
pub open spec fn ops_in_range(ops: Seq<OpView>, c: Counts) -> bool {
    forall|i: int| 0 <= i < ops.len() ==> op_in_range(#[trigger] ops[i], c)
}

/// Counters that are each at least as large as those of `c`.
pub open spec fn counts_le(c: Counts, d: Counts) -> bool {
    c.public <= d.public && c.private <= d.private && c.local <= d.local
}

/// References in range stay in range when counters grow.
pub proof fn lemma_ops_in_range_grow(ops: Seq<OpView>, c: Counts, d: Counts)
    requires
        ops_in_range(ops, c),
        counts_le(c, d),
    ensures
        ops_in_range(ops, d),
{
    assert forall|i: int| 0 <= i < ops.len() implies op_in_range(#[trigger] ops[i], d) by {
        assert(op_in_range(ops[i], c));
        assert forall|j: int| 0 <= j < ops[i].inputs.len() implies var_in_range(
            #[trigger] ops[i].inputs[j],
            d,
        ) by {
            assert(var_in_range(ops[i].inputs[j], c));
        }
        assert forall|j: int| 0 <= j < ops[i].outputs.len() implies var_in_range(
            #[trigger] ops[i].outputs[j],
            d,
        ) by {
            assert(var_in_range(ops[i].outputs[j], c));
        }
    }
}

/// No local index is the output of two places in the operations: each local is produced by
/// at most one output of one operation.
pub open spec fn local_outputs_distinct(ops: Seq<OpView>) -> bool {
    forall|i: int, a: int, j: int, b: int|
        #![trigger ops[i].outputs[a], ops[j].outputs[b]]
        0 <= i < ops.len() && 0 <= j < ops.len() && 0 <= a < ops[i].outputs.len() && 0 <= b
            < ops[j].outputs.len() && ops[i].outputs[a] is Local && ops[i].outputs[a]
            == ops[j].outputs[b] ==> i == j && a == b
}

/// The locals among `outs` differ from each other and from every output of `ops`.
pub open spec fn fresh_outputs(ops: Seq<OpView>, outs: Seq<Var>) -> bool {
    &&& forall|a: int, b: int|
        #![trigger outs[a], outs[b]]
        0 <= a < outs.len() && 0 <= b < outs.len() && outs[a] is Local && outs[a] == outs[b] ==> a
            == b
    &&& forall|i: int, a: int, b: int|
        #![trigger ops[i].outputs[a], outs[b]]
        0 <= i < ops.len() && 0 <= a < ops[i].outputs.len() && 0 <= b < outs.len() && outs[b] is Local
            ==> ops[i].outputs[a] != outs[b]
}

/// An operation whose outputs are fresh keeps the locals distinct.
pub proof fn lemma_outputs_distinct_push(ops: Seq<OpView>, o: OpView)
    requires
        local_outputs_distinct(ops),
        fresh_outputs(ops, o.outputs),
    ensures
        local_outputs_distinct(ops.push(o)),
{
    let ops2 = ops.push(o);
    assert forall|i: int, a: int, j: int, b: int|
        #![trigger ops2[i].outputs[a], ops2[j].outputs[b]]
        0 <= i < ops2.len() && 0 <= j < ops2.len() && 0 <= a < ops2[i].outputs.len() && 0 <= b
            < ops2[j].outputs.len() && ops2[i].outputs[a] is Local && ops2[i].outputs[a]
            == ops2[j].outputs[b] implies i == j && a == b by {
        let n = ops.len() as int;
        if i < n && j < n {
            assert(ops2[i] == ops[i] && ops2[j] == ops[j]);
            assert(ops[i].outputs[a] == ops[j].outputs[b]);
        } else if i < n {
            assert(ops2[i] == ops[i] && ops2[j] == o);
            assert(ops[i].outputs[a] != o.outputs[b]);
        } else if j < n {
            assert(ops2[j] == ops[j] && ops2[i] == o);
            assert(ops[j].outputs[b] != o.outputs[a]);
        } else {
            assert(o.outputs[a] == o.outputs[b]);
        }
    }
}

/// Outputs of one local, or of a run of new locals at and above the counter, are fresh.
pub proof fn lemma_fresh_run(ops: Seq<OpView>, c: Counts, outs: Seq<Var>)
    requires
        ops_in_range(ops, c),
        forall|b: int| 0 <= b < outs.len() ==> #[trigger] outs[b] == Var::Local(c.local + b as nat),
    ensures
        fresh_outputs(ops, outs),
{
    assert forall|i: int, a: int, b: int|
        #![trigger ops[i].outputs[a], outs[b]]
        0 <= i < ops.len() && 0 <= a < ops[i].outputs.len() && 0 <= b < outs.len() && outs[b] is Local
            implies ops[i].outputs[a] != outs[b] by {
        assert(op_in_range(ops[i], c));
        assert(var_in_range(ops[i].outputs[a], c));
    }
}

/// The flattened constraint graph: the variable counts and the operations in emission order.
#[derive(Debug, Clone, PartialEq, Eq)]
pub struct CircuitDefinition {
    pub private_len: u64,
    pub public_len: u64,
    pub local_len: u64,
    pub operations: Vec<Operation>,
}

impl CircuitDefinition {
    /// The counts that the definition declares.
    pub open spec fn counts(&self) -> Counts {
        Counts {
            public: self.public_len as nat,
            private: self.private_len as nat,
            local: self.local_len as nat,
        }
    }

    /// Every reference in the operations has an index below its declared count.
    pub open spec fn wf(&self) -> bool {
        ops_in_range(ops_of(self.operations@), self.counts())
    }
}

/// The values of a sequence of field values.
pub open spec fn values_of(vs: Seq<FieldValue>) -> Seq<int> {
    vs.map_values(|v: FieldValue| v@)
}

/// Copies a sequence of field values.
pub fn duplicate_values(vs: &Vec<FieldValue>) -> (r: Vec<FieldValue>)
    ensures
        values_of(r@) == values_of(vs@),
{
    let mut out: Vec<FieldValue> = Vec::new();
    let mut i: usize = 0;
    while i < vs.len()
        invariant
            i <= vs@.len(),
            out@.len() == i,
            forall|j: int| 0 <= j < i ==> (#[trigger] out@[j])@ == vs@[j]@,
        decreases vs@.len() - i,
    {
        out.push(vs[i].duplicate());
        i += 1;
    }
    assert(values_of(out@) =~= values_of(vs@));
    out
}

/// The values of a circuit's inputs: `public[i]` is the value of `Public(i)`, and
/// `private[i]` that of `Private(i)`.
#[derive(Debug, PartialEq, Eq)]
pub struct Witness {
    pub public: Vec<FieldValue>,
    pub private: Vec<FieldValue>,
}

impl Witness {
    /// A witness with both vectors empty.
    pub fn new() -> (r: Witness)
        ensures
            r.public@.len() == 0,
            r.private@.len() == 0,
    {
        Witness { public: Vec::new(), private: Vec::new() }
    }

    /// A witness made of the two vectors.
    pub fn from_parts(public: Vec<FieldValue>, private: Vec<FieldValue>) -> (r: Witness)
        ensures
            r.public == public,
            r.private == private,
    {
        Witness { public, private }
    }

    /// The public part alone.
    pub fn to_public(&self) -> (r: PublicWitness)
        ensures
            values_of(r.public@) == values_of(self.public@),
    {
        PublicWitness { public: duplicate_values(&self.public) }
    }

    pub fn public(&self) -> (r: &[FieldValue])
        ensures
            r@ == self.public@,
    {
        self.public.as_slice()
    }

    pub fn private(&self) -> (r: &[FieldValue])
        ensures
            r@ == self.private@,
    {
        self.private.as_slice()
    }
}

impl Default for Witness {
    fn default() -> (r: Witness)
        ensures
            r.public@.len() == 0,
            r.private@.len() == 0,
    {
        Witness::new()
    }
}

/// The public values of a witness, which a verifier receives.
#[derive(Debug, PartialEq, Eq)]
pub struct PublicWitness {
    pub public: Vec<FieldValue>,
}

impl PublicWitness {
    pub fn new() -> (r: PublicWitness)
        ensures
            r.public@.len() == 0,
    {
        PublicWitness { public: Vec::new() }
    }
}

impl Default for PublicWitness {
    fn default() -> (r: PublicWitness)
        ensures
            r.public@.len() == 0,
    {
        PublicWitness::new()
    }
}

} // verus!
