//! The constraint emitter: it owns the allocator and the growing list of operations.
use crate::circuit::{counts_after, element_refs, CircuitSchema};
use crate::initer::{Counts, VariableIniter};
use crate::metadata::MetadataInfo;
use crate::types::{
    fresh_outputs, lemma_fresh_run, lemma_ops_in_range_grow, local_outputs_distinct, ops_in_range, ops_of, var_in_range, vars_in_range,
    CircuitDefinition, OpCode, OpView, Operation,
};
use crate::variable::{vars_of, Var, Variable, VariableType};
use vstd::prelude::*;

verus! {

/// `n` consecutive local references, starting at index `start`.
pub open spec fn local_run(start: nat, n: nat) -> Seq<Var> {
    Seq::new(n, |i: int| Var::Local(start + i as nat))
}

/// The references of one operand.
fn operands1(x1: &impl Variable) -> (r: Vec<VariableType>)
    ensures
        vars_of(r@) == seq![x1.var()],
{
    let mut v: Vec<VariableType> = Vec::new();
    v.push(x1.ty());
    assert(vars_of(v@) =~= seq![x1.var()]);
    v
}

/// The references of two operands, in order.
fn operands2(x1: &impl Variable, x2: &impl Variable) -> (r: Vec<VariableType>)
    ensures
        vars_of(r@) == seq![x1.var(), x2.var()],
{
    let mut v: Vec<VariableType> = Vec::new();
    v.push(x1.ty());
    v.push(x2.ty());
    assert(vars_of(v@) =~= seq![x1.var(), x2.var()]);
    v
}

/// The references of three operands, in order.
fn operands3(x1: &impl Variable, x2: &impl Variable, x3: &impl Variable) -> (r: Vec<VariableType>)
    ensures
        vars_of(r@) == seq![x1.var(), x2.var(), x3.var()],
{
    let mut v: Vec<VariableType> = Vec::new();
    v.push(x1.ty());
    v.push(x2.ty());
    v.push(x3.ty());
    assert(vars_of(v@) =~= seq![x1.var(), x2.var(), x3.var()]);
    v
}

/// The references of two operands followed by those of `xn`.
fn operands_2n(x1: &impl Variable, x2: &impl Variable, xn: &[VariableType]) -> (r: Vec<VariableType>)
    ensures
        vars_of(r@) == seq![x1.var(), x2.var()] + vars_of(xn@),
{
    let mut v = operands2(x1, x2);
    let mut i: usize = 0;
    while i < xn.len()
        invariant
            i <= xn@.len(),
            vars_of(v@) == seq![x1.var(), x2.var()] + vars_of(xn@.subrange(0, i as int)),
        decreases xn@.len() - i,
    {
        let ghost before = v@;
        v.push(xn[i].duplicate());
        i += 1;
        proof {
            assert(vars_of(v@) =~= vars_of(before).push(xn@[i - 1]@));
            assert(vars_of(xn@.subrange(0, i as int)) =~= vars_of(xn@.subrange(0, i - 1)).push(
                xn@[i - 1]@,
            ));
        }
    }
    assert(xn@.subrange(0, i as int) =~= xn@);
    v
}

/// The references of a list of operands, in order.
fn operands_n(xs: &[VariableType]) -> (r: Vec<VariableType>)
    ensures
        vars_of(r@) == vars_of(xs@),
{
    let mut v: Vec<VariableType> = Vec::new();
    let mut i: usize = 0;
    while i < xs.len()
        invariant
            i <= xs@.len(),
            v@.len() == i,
            forall|j: int| 0 <= j < i ==> (#[trigger] v@[j])@ == xs@[j]@,
        decreases xs@.len() - i,
    {
        v.push(xs[i].duplicate());
        i += 1;
    }
    assert(vars_of(v@) =~= vars_of(xs@));
    v
}

/// `after` is `before` with one fresh local `r` and one more operation, `op` over `inputs`
/// with `r` as its only output.
pub open spec fn emits_one(
    before: CircuitBuilder,
    after: CircuitBuilder,
    op: OpCode,
    inputs: Seq<Var>,
    r: Var,
) -> bool {
    &&& r == Var::Local(before.counts().local)
    &&& after.counts() == Counts { local: before.counts().local + 1, ..before.counts() }
    &&& after.ops() == before.ops().push(OpView { op, inputs, outputs: seq![r] })
    &&& after.meta() == before.meta()
}

/// `after` is `before` with one more operation, `op` over `inputs`, which has no output.
pub open spec fn emits_check(
    before: CircuitBuilder,
    after: CircuitBuilder,
    op: OpCode,
    inputs: Seq<Var>,
) -> bool {
    &&& after.counts() == before.counts()
    &&& after.ops() == before.ops().push(OpView { op, inputs, outputs: Seq::empty() })
    &&& after.meta() == before.meta()
}

/// The operands were handed out by the builder's allocator (or are constants), and a local
/// can still be allocated.
pub open spec fn can_emit(b: CircuitBuilder, inputs: Seq<Var>) -> bool {
    b.counts().local < u64::MAX && vars_in_range(inputs, b.counts())
}

/// Builds a circuit: each operation allocates its outputs as fresh local variables and
/// records itself, in emission order.
pub struct CircuitBuilder {
    operations: Vec<Operation>,
    variable_initer: VariableIniter,
    metadata: MetadataInfo,
}

impl CircuitBuilder {
    /// Every reference in the recorded operations was handed out by the allocator, and no
    /// local is the output of two places.
    #[verifier::type_invariant]
    spec fn refs_allocated(&self) -> bool {
        &&& ops_in_range(ops_of(self.operations@), self.variable_initer@)
        &&& local_outputs_distinct(ops_of(self.operations@))
    }

    /// The operations recorded so far, in emission order.
    pub closed spec fn ops(&self) -> Seq<OpView> {
        ops_of(self.operations@)
    }

    /// The allocator's counters.
    pub closed spec fn counts(&self) -> Counts {
        self.variable_initer@
    }

    pub closed spec fn meta(&self) -> MetadataInfo {
        self.metadata
    }

    /// A builder with a fresh allocator and no operation.
    pub fn new(metadata: MetadataInfo) -> (r: CircuitBuilder)
        ensures
            r.ops() == Seq::<OpView>::empty(),
            r.counts() == (Counts { public: 0, private: 0, local: 0 }),
            r.meta() == metadata,
    {
        let r = CircuitBuilder {
            operations: Vec::new(),
            variable_initer: VariableIniter::new(),
            metadata,
        };
        assert(ops_of(r.operations@) =~= Seq::<OpView>::empty());
        r
    }

    pub fn variable_initer(&self) -> (r: &VariableIniter)
        ensures
            r@ == self.counts(),
    {
        &self.variable_initer
    }

    pub fn metadata(&self) -> (r: &MetadataInfo)
        ensures
            *r == self.meta(),
    {
        &self.metadata
    }

    /// Allocates the circuit's inputs after the layout `schema` (see
    /// [`CircuitSchema::create_public`]).
    pub fn create_element(&mut self, schema: &CircuitSchema, is_private: bool) -> (r: Vec<
        VariableType,
    >)
        requires
            old(self).counts().public + schema@.len() <= u64::MAX,
            old(self).counts().private + schema@.len() <= u64::MAX,
        ensures
            vars_of(r@) == element_refs(old(self).counts(), schema@, is_private),
            final(self).counts() == counts_after(old(self).counts(), schema@, is_private),
            final(self).ops() == old(self).ops(),
            final(self).meta() == old(self).meta(),
    {
        proof {
            use_type_invariant(&*self);
            crate::circuit::lemma_count_public_le(schema@, is_private);
        }
        let mut initer = self.variable_initer;
        let r = schema.create_public(&mut initer, is_private);
        proof {
            lemma_ops_in_range_grow(ops_of(self.operations@), self.variable_initer@, initer@);
        }
        self.variable_initer = initer;
        r
    }

    /// Consumes the builder into the definition: the final counters and the operations.
    pub fn build(self) -> (r: CircuitDefinition)
        ensures
            r.counts() == self.counts(),
            ops_of(r.operations@) == self.ops(),
            r.wf(),
            local_outputs_distinct(ops_of(r.operations@)),
    {
        proof {
            use_type_invariant(&self);
        }
        let CircuitBuilder { operations, variable_initer, metadata } = self;
        CircuitDefinition {
            private_len: variable_initer.private_index(),
            public_len: variable_initer.public_index(),
            local_len: variable_initer.local_index(),
            operations,
        }
    }

    /// Records an operation over references that the allocator has handed out; the locals among
    /// its outputs must not be outputs already.
    pub fn append_operation(
        &mut self,
        op: OpCode,
        inputs: Vec<VariableType>,
        outputs: Vec<VariableType>,
    )
        requires
            vars_in_range(vars_of(inputs@), old(self).counts()),
            vars_in_range(vars_of(outputs@), old(self).counts()),
            fresh_outputs(old(self).ops(), vars_of(outputs@)),
        ensures
            final(self).ops() == old(self).ops().push(
                OpView { op, inputs: vars_of(inputs@), outputs: vars_of(outputs@) },
            ),
            final(self).counts() == old(self).counts(),
            final(self).meta() == old(self).meta(),
    {
        proof {
            use_type_invariant(&*self);
        }
        let operation = Operation { op, inputs, outputs };
        let mut ops: Vec<Operation> = Vec::new();
        std::mem::swap(&mut ops, &mut self.operations);
        let ghost before = ops@;
        ops.push(operation);
        proof {
            assert(ops_of(ops@) =~= ops_of(before).push(operation@));
            crate::types::lemma_outputs_distinct_push(ops_of(before), operation@);
        }
        std::mem::swap(&mut ops, &mut self.operations);
    }

    /// Allocates a fresh local variable.
    pub fn allocate_local_variable(&mut self) -> (r: VariableType)
        requires
            old(self).counts().local < u64::MAX,
        ensures
            r@ == Var::Local(old(self).counts().local),
            final(self).counts() == (Counts { local: old(self).counts().local + 1, ..old(self).counts() }),
            final(self).ops() == old(self).ops(),
            final(self).meta() == old(self).meta(),
    {
        proof {
            use_type_invariant(&*self);
        }
        let mut initer = self.variable_initer;
        let r = initer.new_local();
        proof {
            lemma_ops_in_range_grow(ops_of(self.operations@), self.variable_initer@, initer@);
        }
        self.variable_initer = initer;
        r
    }

    /// Allocates `n` fresh local variables, in order.
    pub fn allocate_local_variable_n(&mut self, n: u64) -> (r: Vec<VariableType>)
        requires
            old(self).counts().local + n <= u64::MAX,
        ensures
            vars_of(r@) == local_run(old(self).counts().local, n as nat),
            final(self).counts() == (Counts { local: old(self).counts().local + n as nat, ..old(self).counts() }),
            final(self).ops() == old(self).ops(),
            final(self).meta() == old(self).meta(),
    {
        let ghost c = self.counts();
        let mut res: Vec<VariableType> = Vec::new();
        let mut i: u64 = 0;
        while i < n
            invariant
                i <= n,
                c.local + n <= u64::MAX,
                self.counts() == (Counts { local: c.local + i as nat, ..c }),
                self.ops() == old(self).ops(),
                self.meta() == old(self).meta(),
                vars_of(res@) == local_run(c.local, i as nat),
            decreases n - i,
        {
            let v = self.allocate_local_variable();
            let ghost before = res@;
            res.push(v);
            i += 1;
            proof {
                assert(vars_of(res@) =~= vars_of(before).push(v@));
                assert(local_run(c.local, i as nat) =~= local_run(c.local, (i - 1) as nat).push(
                    Var::Local(c.local + (i - 1) as nat),
                ));
            }
        }
        res
    }

    /// Addition: `x1 + x2`.
    pub fn add(&mut self, x1: &impl Variable, x2: &impl Variable) -> (r: VariableType)
        requires
            can_emit(*old(self), seq![x1.var(), x2.var()]),
        ensures
            emits_one(*old(self), *final(self), OpCode::Add, seq![x1.var(), x2.var()], r@),
    {
        let inputs = operands2(x1, x2);
        self.emit(OpCode::Add, inputs)
    }
    /// Addition of several operands: `x1 + x2 + ...`.
    pub fn add_multi(&mut self, x1: &impl Variable, x2: &impl Variable, xn: &[VariableType]) -> (r: VariableType)
        requires
            can_emit(*old(self), seq![x1.var(), x2.var()] + vars_of(xn@)),
        ensures
            emits_one(*old(self), *final(self), OpCode::Add, seq![x1.var(), x2.var()] + vars_of(xn@), r@),
    {
        let inputs = operands_2n(x1, x2, xn);
        self.emit(OpCode::Add, inputs)
    }
    /// Multiply-accumulate in a single constraint: `a + b * c`.
    pub fn mul_acc(&mut self, a: &impl Variable, b: &impl Variable, c: &impl Variable) -> (r: VariableType)
        requires
            can_emit(*old(self), seq![a.var(), b.var(), c.var()]),
        ensures
            emits_one(*old(self), *final(self), OpCode::MulAcc, seq![a.var(), b.var(), c.var()], r@),
    {
        let inputs = operands3(a, b, c);
        self.emit(OpCode::MulAcc, inputs)
    }
    /// Negation: `-x`.
    pub fn neg(&mut self, x: &impl Variable) -> (r: VariableType)
        requires
            can_emit(*old(self), seq![x.var()]),
        ensures
            emits_one(*old(self), *final(self), OpCode::Neg, seq![x.var()], r@),
    {
        let inputs = operands1(x);
        self.emit(OpCode::Neg, inputs)
    }
    /// Subtraction: `x1 - x2`.
    pub fn sub(&mut self, x1: &impl Variable, x2: &impl Variable) -> (r: VariableType)
        requires
            can_emit(*old(self), seq![x1.var(), x2.var()]),
        ensures
            emits_one(*old(self), *final(self), OpCode::Sub, seq![x1.var(), x2.var()], r@),
    {
        let inputs = operands2(x1, x2);
        self.emit(OpCode::Sub, inputs)
    }
    /// Subtraction of several operands: `x1 - x2 - ...`.
    pub fn sub_multi(&mut self, x1: &impl Variable, x2: &impl Variable, xn: &[VariableType]) -> (r: VariableType)
        requires
            can_emit(*old(self), seq![x1.var(), x2.var()] + vars_of(xn@)),
        ensures
            emits_one(*old(self), *final(self), OpCode::Sub, seq![x1.var(), x2.var()] + vars_of(xn@), r@),
    {
        let inputs = operands_2n(x1, x2, xn);
        self.emit(OpCode::Sub, inputs)
    }
    /// Multiplication: `x1 * x2`.
    pub fn mul(&mut self, x1: &impl Variable, x2: &impl Variable) -> (r: VariableType)
        requires
            can_emit(*old(self), seq![x1.var(), x2.var()]),
        ensures
            emits_one(*old(self), *final(self), OpCode::Mul, seq![x1.var(), x2.var()], r@),
    {
        let inputs = operands2(x1, x2);
        self.emit(OpCode::Mul, inputs)
    }
    /// Multiplication of several operands: `x1 * x2 * ...`.
    pub fn mul_multi(&mut self, x1: &impl Variable, x2: &impl Variable, xn: &[VariableType]) -> (r: VariableType)
        requires
            can_emit(*old(self), seq![x1.var(), x2.var()] + vars_of(xn@)),
        ensures
            emits_one(*old(self), *final(self), OpCode::Mul, seq![x1.var(), x2.var()] + vars_of(xn@), r@),
    {
        let inputs = operands_2n(x1, x2, xn);
        self.emit(OpCode::Mul, inputs)
    }
    /// Division with no constraint on the divisor: `x1 / x2`, and 0 where both are 0.
    pub fn div_unchecked(&mut self, x1: &impl Variable, x2: &impl Variable) -> (r: VariableType)
        requires
            can_emit(*old(self), seq![x1.var(), x2.var()]),
        ensures
            emits_one(*old(self), *final(self), OpCode::DivUnchecked, seq![x1.var(), x2.var()], r@),
    {
        let inputs = operands2(x1, x2);
        self.emit(OpCode::DivUnchecked, inputs)
    }
    /// Division: `x1 / x2`; a zero divisor makes the circuit unsatisfiable.
    pub fn div(&mut self, x1: &impl Variable, x2: &impl Variable) -> (r: VariableType)
        requires
            can_emit(*old(self), seq![x1.var(), x2.var()]),
        ensures
            emits_one(*old(self), *final(self), OpCode::Div, seq![x1.var(), x2.var()], r@),
    {
        let inputs = operands2(x1, x2);
        self.emit(OpCode::Div, inputs)
    }
    /// Multiplicative inverse: `1 / x`; a zero operand makes the circuit unsatisfiable.
    pub fn inverse(&mut self, x: &impl Variable) -> (r: VariableType)
        requires
            can_emit(*old(self), seq![x.var()]),
        ensures
            emits_one(*old(self), *final(self), OpCode::Inverse, seq![x.var()], r@),
    {
        let inputs = operands1(x);
        self.emit(OpCode::Inverse, inputs)
    }
    /// Packs bits into a value; the first bit is the least significant.
    pub fn variable_from_binary(&mut self, b: &[VariableType]) -> (r: VariableType)
        requires
            can_emit(*old(self), vars_of(b@)),
        ensures
            emits_one(*old(self), *final(self), OpCode::FromBinary, vars_of(b@), r@),
    {
        let inputs = operands_n(b);
        self.emit(OpCode::FromBinary, inputs)
    }
    /// Bitwise exclusive or.
    pub fn xor(&mut self, x1: &impl Variable, x2: &impl Variable) -> (r: VariableType)
        requires
            can_emit(*old(self), seq![x1.var(), x2.var()]),
        ensures
            emits_one(*old(self), *final(self), OpCode::Xor, seq![x1.var(), x2.var()], r@),
    {
        let inputs = operands2(x1, x2);
        self.emit(OpCode::Xor, inputs)
    }
    /// Bitwise or.
    pub fn or(&mut self, x1: &impl Variable, x2: &impl Variable) -> (r: VariableType)
        requires
            can_emit(*old(self), seq![x1.var(), x2.var()]),
        ensures
            emits_one(*old(self), *final(self), OpCode::Or, seq![x1.var(), x2.var()], r@),
    {
        let inputs = operands2(x1, x2);
        self.emit(OpCode::Or, inputs)
    }
    /// Bitwise and.
    pub fn and(&mut self, x1: &impl Variable, x2: &impl Variable) -> (r: VariableType)
        requires
            can_emit(*old(self), seq![x1.var(), x2.var()]),
        ensures
            emits_one(*old(self), *final(self), OpCode::And, seq![x1.var(), x2.var()], r@),
    {
        let inputs = operands2(x1, x2);
        self.emit(OpCode::And, inputs)
    }
    /// Selection: `x2` where `x1` is nonzero, else `x3`; `x1` is taken to be boolean.
    pub fn select(&mut self, x1: &impl Variable, x2: &impl Variable, x3: &impl Variable) -> (r: VariableType)
        requires
            can_emit(*old(self), seq![x1.var(), x2.var(), x3.var()]),
        ensures
            emits_one(*old(self), *final(self), OpCode::Select, seq![x1.var(), x2.var(), x3.var()], r@),
    {
        let inputs = operands3(x1, x2, x3);
        self.emit(OpCode::Select, inputs)
    }
    /// 1 where `x` is zero, else 0.
    pub fn is_zero(&mut self, x: &impl Variable) -> (r: VariableType)
        requires
            can_emit(*old(self), seq![x.var()]),
        ensures
            emits_one(*old(self), *final(self), OpCode::IsZero, seq![x.var()], r@),
    {
        let inputs = operands1(x);
        self.emit(OpCode::IsZero, inputs)
    }
    /// Three-way comparison: 1, 0 or -1 as `x1` is greater than, equal to or less than `x2`.
    pub fn cmp(&mut self, x1: &impl Variable, x2: &impl Variable) -> (r: VariableType)
        requires
            can_emit(*old(self), seq![x1.var(), x2.var()]),
        ensures
            emits_one(*old(self), *final(self), OpCode::Cmp, seq![x1.var(), x2.var()], r@),
    {
        let inputs = operands2(x1, x2);
        self.emit(OpCode::Cmp, inputs)
    }
    /// Constrains `x1 == x2`.
    pub fn assert_is_equal(&mut self, x1: &impl Variable, x2: &impl Variable)
        requires
            vars_in_range(seq![x1.var(), x2.var()], old(self).counts()),
        ensures
            emits_check(*old(self), *final(self), OpCode::AssertIsEqual, seq![x1.var(), x2.var()]),
    {
        let inputs = operands2(x1, x2);
        self.emit_check(OpCode::AssertIsEqual, inputs)
    }
    /// Constrains `x1 != x2`.
    pub fn assert_is_different(&mut self, x1: &impl Variable, x2: &impl Variable)
        requires
            vars_in_range(seq![x1.var(), x2.var()], old(self).counts()),
        ensures
            emits_check(*old(self), *final(self), OpCode::AssertIsDifferent, seq![x1.var(), x2.var()]),
    {
        let inputs = operands2(x1, x2);
        self.emit_check(OpCode::AssertIsDifferent, inputs)
    }
    /// Constrains `x` to 0 or 1.
    pub fn assert_is_boolean(&mut self, x: &impl Variable)
        requires
            vars_in_range(seq![x.var()], old(self).counts()),
        ensures
            emits_check(*old(self), *final(self), OpCode::AssertIsBoolean, seq![x.var()]),
    {
        let inputs = operands1(x);
        self.emit_check(OpCode::AssertIsBoolean, inputs)
    }
    /// Constrains `x` to 0, 1, 2 or 3.
    pub fn assert_is_crumb(&mut self, x: &impl Variable)
        requires
            vars_in_range(seq![x.var()], old(self).counts()),
        ensures
            emits_check(*old(self), *final(self), OpCode::AssertIsCrumb, seq![x.var()]),
    {
        let inputs = operands1(x);
        self.emit_check(OpCode::AssertIsCrumb, inputs)
    }
    /// Constrains `v <= bound`.
    pub fn assert_is_less_or_equal(&mut self, v: &impl Variable, bound: &impl Variable)
        requires
            vars_in_range(seq![v.var(), bound.var()], old(self).counts()),
        ensures
            emits_check(*old(self), *final(self), OpCode::AssertIsLessOrEqual, seq![v.var(), bound.var()]),
    {
        let inputs = operands2(v, bound);
        self.emit_check(OpCode::AssertIsLessOrEqual, inputs)
    }
    /// Prints `message` while a backend evaluates the circuit; no constraint.
    pub fn println(&mut self, message: &impl Variable)
        requires
            vars_in_range(seq![message.var()], old(self).counts()),
        ensures
            emits_check(*old(self), *final(self), OpCode::Println, seq![message.var()]),
    {
        let inputs = operands1(message);
        self.emit_check(OpCode::Println, inputs)
    }
    /// Two-bit lookup: picks `y1`, `y2`, `y3` or `y4` by the index `(b1 << 1) | b0`.
    pub fn lookup2(
        &mut self,
        b0: &impl Variable,
        b1: &impl Variable,
        y1: &impl Variable,
        y2: &impl Variable,
        y3: &impl Variable,
        y4: &impl Variable,
    ) -> (r: VariableType)
        requires
            can_emit(*old(self), seq![b0.var(), b1.var(), y1.var(), y2.var(), y3.var(), y4.var()]),
        ensures
            emits_one(
                *old(self),
                *final(self),
                OpCode::Lookup2,
                seq![b0.var(), b1.var(), y1.var(), y2.var(), y3.var(), y4.var()],
                r@,
            ),
    {
        let mut inputs = operands3(b0, b1, y1);
        let ghost first = inputs@;
        let t2 = y2.ty();
        let t3 = y3.ty();
        let t4 = y4.ty();
        inputs.push(t2);
        inputs.push(t3);
        inputs.push(t4);
        proof {
            assert(inputs@ =~= first.push(t2).push(t3).push(t4));
            assert(vars_of(first).len() == 3);
            assert(first[0]@ == vars_of(first)[0]);
            assert(first[1]@ == vars_of(first)[1]);
            assert(first[2]@ == vars_of(first)[2]);
            assert(vars_of(inputs@) =~= seq![
                b0.var(),
                b1.var(),
                y1.var(),
                y2.var(),
                y3.var(),
                y4.var(),
            ]);
        }
        self.emit(OpCode::Lookup2, inputs)
    }

    /// Bit decomposition of `x` into `n` outputs, the first being the least significant bit.
    pub fn variable_to_binary(&mut self, x: &impl Variable, n: u64) -> (r: Vec<VariableType>)
        requires
            old(self).counts().local + n <= u64::MAX,
            var_in_range(x.var(), old(self).counts()),
        ensures
            vars_of(r@) == local_run(old(self).counts().local, n as nat),
            final(self).counts() == (Counts { local: old(self).counts().local + n as nat, ..old(self).counts() }),
            final(self).ops() == old(self).ops().push(
                OpView {
                    op: OpCode::ToBinary,
                    inputs: seq![x.var(), Var::Constant(n as int)],
                    outputs: local_run(old(self).counts().local, n as nat),
                },
            ),
            final(self).meta() == old(self).meta(),
    {
        proof {
            use_type_invariant(&*self);
        }
        let ghost c = self.counts();
        let inputs = operands2(x, &n);
        let res = self.allocate_local_variable_n(n);
        let outputs = crate::variable::duplicate_vars(&res);
        proof {
            let c = self.counts();
            assert(vars_in_range(vars_of(inputs@), c)) by {
                assert(vars_of(inputs@)[0] == x.var());
            }
            assert(vars_in_range(vars_of(outputs@), c));
        }
        proof {
            lemma_fresh_run(self.ops(), c, vars_of(outputs@));
        }
        self.append_operation(OpCode::ToBinary, inputs, outputs);
        res
    }

    /// Allocates one local output, records `op` over `inputs` with it, and returns it.
    fn emit(&mut self, op: OpCode, inputs: Vec<VariableType>) -> (r: VariableType)
        requires
            old(self).counts().local < u64::MAX,
            vars_in_range(vars_of(inputs@), old(self).counts()),
        ensures
            r@ == Var::Local(old(self).counts().local),
            final(self).counts() == (Counts { local: old(self).counts().local + 1, ..old(self).counts() }),
            final(self).ops() == old(self).ops().push(
                OpView { op, inputs: vars_of(inputs@), outputs: seq![r@] },
            ),
            final(self).meta() == old(self).meta(),
    {
        proof {
            use_type_invariant(&*self);
        }
        let ghost c = self.counts();
        let res = self.allocate_local_variable();
        let mut outputs: Vec<VariableType> = Vec::new();
        outputs.push(res.duplicate());
        proof {
            assert(vars_of(outputs@) =~= seq![res@]);
            assert(vars_in_range(vars_of(inputs@), self.counts()));
            lemma_fresh_run(self.ops(), c, vars_of(outputs@));
        }
        self.append_operation(op, inputs, outputs);
        res
    }

    /// Records an assertion or a debug print over `inputs`: it has no output.
    fn emit_check(&mut self, op: OpCode, inputs: Vec<VariableType>)
        requires
            vars_in_range(vars_of(inputs@), old(self).counts()),
        ensures
            final(self).counts() == old(self).counts(),
            final(self).ops() == old(self).ops().push(
                OpView { op, inputs: vars_of(inputs@), outputs: Seq::empty() },
            ),
            final(self).meta() == old(self).meta(),
    {
        let outputs: Vec<VariableType> = Vec::new();
        proof {
            assert(vars_of(outputs@) =~= Seq::<Var>::empty());
            assert(fresh_outputs(self.ops(), vars_of(outputs@)));
        }
        self.append_operation(op, inputs, outputs);
    }
}

} // verus!
