//! Variable references and the values that may stand as operands.
use crate::value::FieldValue;
use vstd::prelude::*;

verus! {

/// What a variable reference denotes: a slot of one of three kinds, or a constant.
pub enum Var {
    Public(nat),
    Private(nat),
    Local(nat),
    Constant(int),
}

/// A reference to a slot of the constraint graph, or a constant folded into it.
#[derive(Debug, Clone, PartialEq, Eq)]
pub enum VariableType {
    Public(u64),
    Private(u64),
    Constant(FieldValue),
    Local(u64),
}

impl View for VariableType {
    type V = Var;

    open spec fn view(&self) -> Var {
        match self {
            VariableType::Public(i) => Var::Public(*i as nat),
            VariableType::Private(i) => Var::Private(*i as nat),
            VariableType::Constant(v) => Var::Constant(v@),
            VariableType::Local(i) => Var::Local(*i as nat),
        }
    }
}

/// The models of a sequence of references.
pub open spec fn vars_of(vs: Seq<VariableType>) -> Seq<Var> {
    vs.map_values(|v: VariableType| v@)
}

impl VariableType {
    /// A copy that denotes the same slot or constant.
    pub fn duplicate(&self) -> (r: VariableType)
        ensures
            r@ == self@,
    {
        match self {
            VariableType::Public(i) => VariableType::Public(*i),
            VariableType::Private(i) => VariableType::Private(*i),
            VariableType::Constant(v) => VariableType::Constant(v.duplicate()),
            VariableType::Local(i) => VariableType::Local(*i),
        }
    }
}

/// Copies a sequence of references.
pub fn duplicate_vars(vs: &Vec<VariableType>) -> (r: Vec<VariableType>)
    ensures
        vars_of(r@) == vars_of(vs@),
{
    let mut out: Vec<VariableType> = Vec::new();
    let mut i: usize = 0;
    while i < vs.len()
        invariant
            i <= vs@.len(),
            out@.len() == i,
            forall|j: int| 0 <= j < i ==> (#[trigger] out@[j])@ == vs@[j]@,
        decreases vs@.len() - i,
    {
        out.push(vs[i].duplicate());
        i += 1;
    }
    assert(vars_of(out@) =~= vars_of(vs@));
    out
}

/// Anything that can stand as an operand of a circuit operation.
pub trait Variable {
    /// The reference or constant that this operand denotes.
    spec fn var(&self) -> Var;

    /// The reference that an operation records for this operand.
    fn ty(&self) -> (r: VariableType)
        ensures
            r@ == self.var(),
    ;
}

impl Variable for VariableType {
    open spec fn var(&self) -> Var {
        self@
    }

    fn ty(&self) -> (r: VariableType) {
        self.duplicate()
    }
}

impl Variable for u128 {
    open spec fn var(&self) -> Var {
        Var::Constant(*self as int)
    }

    fn ty(&self) -> (r: VariableType) {
        VariableType::Constant(FieldValue::from_u128(*self))
    }
}

impl Variable for u64 {
    open spec fn var(&self) -> Var {
        Var::Constant(*self as int)
    }

    fn ty(&self) -> (r: VariableType) {
        VariableType::Constant(FieldValue::from_u128(*self as u128))
    }
}

impl Variable for u32 {
    open spec fn var(&self) -> Var {
        Var::Constant(*self as int)
    }

    fn ty(&self) -> (r: VariableType) {
        VariableType::Constant(FieldValue::from_u128(*self as u128))
    }
}

impl Variable for u16 {
    open spec fn var(&self) -> Var {
        Var::Constant(*self as int)
    }

    fn ty(&self) -> (r: VariableType) {
        VariableType::Constant(FieldValue::from_u128(*self as u128))
    }
}

impl Variable for u8 {
    open spec fn var(&self) -> Var {
        Var::Constant(*self as int)
    }

    fn ty(&self) -> (r: VariableType) {
        VariableType::Constant(FieldValue::from_u128(*self as u128))
    }
}

impl Variable for i128 {
    open spec fn var(&self) -> Var {
        Var::Constant(*self as int)
    }

    fn ty(&self) -> (r: VariableType) {
        VariableType::Constant(FieldValue::from_i128(*self))
    }
}

impl Variable for i64 {
    open spec fn var(&self) -> Var {
        Var::Constant(*self as int)
    }

    fn ty(&self) -> (r: VariableType) {
        VariableType::Constant(FieldValue::from_i128(*self as i128))
    }
}

impl Variable for i32 {
    open spec fn var(&self) -> Var {
        Var::Constant(*self as int)
    }

    fn ty(&self) -> (r: VariableType) {
        VariableType::Constant(FieldValue::from_i128(*self as i128))
    }
}

impl Variable for i16 {
    open spec fn var(&self) -> Var {
        Var::Constant(*self as int)
    }

    fn ty(&self) -> (r: VariableType) {
        VariableType::Constant(FieldValue::from_i128(*self as i128))
    }
}

impl Variable for i8 {
    open spec fn var(&self) -> Var {
        Var::Constant(*self as int)
    }

    fn ty(&self) -> (r: VariableType) {
        VariableType::Constant(FieldValue::from_i128(*self as i128))
    }
}

impl Variable for bool {
    open spec fn var(&self) -> Var {
        Var::Constant(if *self { 1int } else { 0int })
    }

    fn ty(&self) -> (r: VariableType) {
        VariableType::Constant(FieldValue::from_bool(*self))
    }
}

} // verus!
