use rsnark::builder::CircuitBuilder;
use rsnark::circuit::CircuitSchema;
use rsnark::metadata::{CurveType, MetadataInfo, ProvingSystem};
use rsnark::types::OpCode;
use rsnark::value::FieldValue;
use rsnark::variable::{Variable, VariableType};

fn builder() -> CircuitBuilder {
    CircuitBuilder::new(MetadataInfo::for_curve(CurveType::Mock, ProvingSystem::Mock))
}

fn constant(x: i128) -> VariableType {
    VariableType::Constant(FieldValue::from_i128(x))
}

#[test]
fn div_unchecked_of_zeros_is_recorded_over_constants() {
    let mut api = builder();
    let r = api.div_unchecked(&0u32, &0u32);
    assert_eq!(r, VariableType::Local(0));
    let d = api.build();
    assert_eq!(d.local_len, 1);
    assert_eq!(d.operations[0].op, OpCode::DivUnchecked);
    assert_eq!(d.operations[0].inputs, vec![constant(0), constant(0)]);
    assert_eq!(d.operations[0].outputs, vec![VariableType::Local(0)]);
}

#[test]
fn div_and_inverse_are_recorded() {
    let mut api = builder();
    let x = api.allocate_local_variable();
    let q = api.div(&x, &0u8);
    let inv = api.inverse(&q);
    let d = api.build();
    assert_eq!(inv, VariableType::Local(2));
    assert_eq!(d.operations[0].op, OpCode::Div);
    assert_eq!(d.operations[0].inputs, vec![VariableType::Local(0), constant(0)]);
    assert_eq!(d.operations[1].op, OpCode::Inverse);
    assert_eq!(d.operations[1].inputs, vec![VariableType::Local(1)]);
}

#[test]
fn literals_become_constants() {
    assert_eq!(42u32.ty(), constant(42));
    assert_eq!((-5i64).ty(), constant(-5));
    assert_eq!(true.ty(), constant(1));
    assert_eq!(false.ty(), constant(0));
    assert_eq!(u128::MAX.ty(), VariableType::Constant(FieldValue::from_u128(u128::MAX)));
    assert_eq!(i128::MIN.ty(), constant(i128::MIN));
}

#[test]
fn constants_take_no_index() {
    let mut api = builder();
    let s = api.add(&1u8, &2i16);
    let d = api.build();
    assert_eq!(s, VariableType::Local(0));
    assert_eq!((d.private_len, d.public_len, d.local_len), (0, 0, 1));
    assert_eq!(d.operations[0].inputs, vec![constant(1), constant(2)]);
}

#[test]
fn to_binary_allocates_one_output_per_bit() {
    let mut api = builder();
    let mut schema = CircuitSchema::new();
    schema.push_leaf(false);
    let e = api.create_element(&schema, false);
    let bits = api.variable_to_binary(&e[0], 4);
    assert_eq!(bits, (0..4).map(VariableType::Local).collect::<Vec<_>>());
    let back = api.variable_from_binary(&bits);
    assert_eq!(back, VariableType::Local(4));
    let d = api.build();
    assert_eq!(d.operations[0].op, OpCode::ToBinary);
    assert_eq!(d.operations[0].inputs, vec![VariableType::Private(0), constant(4)]);
    assert_eq!(d.operations[0].outputs, bits);
    assert_eq!(d.operations[1].op, OpCode::FromBinary);
    assert_eq!(d.operations[1].inputs, bits);
    assert_eq!(d.local_len, 5);
}

#[test]
fn multi_operand_forms_keep_order() {
    let mut api = builder();
    let a = api.allocate_local_variable();
    let b = api.allocate_local_variable();
    let extra = vec![VariableType::Local(0), constant(7)];
    api.add_multi(&a, &b, &extra);
    api.sub_multi(&b, &a, &[]);
    api.mul_multi(&a, &3u32, &extra);
    let d = api.build();
    assert_eq!(d.operations[0].op, OpCode::Add);
    assert_eq!(
        d.operations[0].inputs,
        vec![VariableType::Local(0), VariableType::Local(1), VariableType::Local(0), constant(7)]
    );
    assert_eq!(d.operations[1].op, OpCode::Sub);
    assert_eq!(d.operations[1].inputs, vec![VariableType::Local(1), VariableType::Local(0)]);
    assert_eq!(d.operations[2].op, OpCode::Mul);
    assert_eq!(
        d.operations[2].inputs,
        vec![VariableType::Local(0), constant(3), VariableType::Local(0), constant(7)]
    );
    assert_eq!(d.local_len, 5);
}

#[test]
fn every_operation_records_its_kind() {
    let mut api = builder();
    let x = api.allocate_local_variable();
    let y = api.allocate_local_variable();
    api.mul_acc(&x, &y, &2u32);
    api.neg(&x);
    api.sub(&x, &y);
    api.mul(&x, &y);
    api.xor(&x, &y);
    api.or(&x, &y);
    api.and(&x, &y);
    api.select(&true, &x, &y);
    api.lookup2(&x, &y, &1u8, &2u8, &3u8, &4u8);
    api.is_zero(&x);
    api.cmp(&x, &y);
    api.assert_is_equal(&x, &y);
    api.assert_is_different(&x, &y);
    api.assert_is_boolean(&x);
    api.assert_is_crumb(&x);
    api.assert_is_less_or_equal(&x, &10u64);
    api.println(&x);
    let d = api.build();
    let ops: Vec<OpCode> = d.operations.iter().map(|o| o.op).collect();
    assert_eq!(
        ops,
        vec![
            OpCode::MulAcc,
            OpCode::Neg,
            OpCode::Sub,
            OpCode::Mul,
            OpCode::Xor,
            OpCode::Or,
            OpCode::And,
            OpCode::Select,
            OpCode::Lookup2,
            OpCode::IsZero,
            OpCode::Cmp,
            OpCode::AssertIsEqual,
            OpCode::AssertIsDifferent,
            OpCode::AssertIsBoolean,
            OpCode::AssertIsCrumb,
            OpCode::AssertIsLessOrEqual,
            OpCode::Println
        ]
    );
    assert_eq!(
        d.operations[8].inputs,
        vec![x.clone(), y.clone(), constant(1), constant(2), constant(3), constant(4)]
    );
    assert_eq!(d.operations[7].inputs, vec![constant(1), x.clone(), y.clone()]);
    assert!(d.operations[11..].iter().all(|o| o.outputs.is_empty()));
    assert!(d.operations[..11].iter().all(|o| o.outputs.len() == 1));
    assert_eq!(d.local_len, 2 + 11);
}

#[test]
fn append_operation_and_counters() {
    let mut api = builder();
    let mut schema = CircuitSchema::new();
    schema.push_leaf(true);
    schema.push_leaf(false);
    let e = api.create_element(&schema, false);
    assert_eq!(e, vec![VariableType::Public(0), VariableType::Private(0)]);
    api.append_operation(OpCode::AssertIsEqual, e.clone(), vec![]);
    assert_eq!(api.variable_initer().public_index(), 1);
    assert_eq!(api.variable_initer().private_index(), 1);
    assert_eq!(api.metadata().proving_system, ProvingSystem::Mock);
    let d = api.build();
    assert_eq!(d.operations[0].inputs, e);
}
