use rsnark::backend::{Circuit, CircuitWitness, Prover};
use rsnark::builder::CircuitBuilder;
use rsnark::circuit::CircuitSchema;
use rsnark::initer::VariableIniter;
use rsnark::metadata::{CurveType, MetadataInfo, ProvingSystem};
use rsnark::mock::MockProverBackend;
use rsnark::types::{CircuitDefinition, OpCode};
use rsnark::value::FieldValue;
use rsnark::variable::VariableType;

fn fv(x: i128) -> FieldValue {
    FieldValue::from_i128(x)
}

fn values(xs: &[i128]) -> Vec<FieldValue> {
    xs.iter().map(|x| fv(*x)).collect()
}

/// `c = a + b`, with `a` and `b` private and `c` public.
struct TestCircuit {
    a: u32,
    b: u32,
    c: u32,
}

impl CircuitWitness for TestCircuit {
    fn schema() -> CircuitSchema {
        let mut s = CircuitSchema::new();
        s.push_leaf(false);
        s.push_leaf(false);
        s.push_leaf(true);
        s
    }

    fn witness_values(&self) -> Vec<FieldValue> {
        vec![
            FieldValue::from_u128(self.a as u128),
            FieldValue::from_u128(self.b as u128),
            FieldValue::from_u128(self.c as u128),
        ]
    }
}

impl Circuit for TestCircuit {
    fn define(e: &[VariableType], api: &mut CircuitBuilder) {
        let c = api.add(&e[0], &e[1]);
        api.assert_is_equal(&c, &e[2]);
    }
}

/// `sum = a + b`, with `sum` public.
struct Adder {
    a: u32,
    b: u32,
    sum: u32,
}

impl CircuitWitness for Adder {
    fn schema() -> CircuitSchema {
        let mut s = CircuitSchema::new();
        s.push_leaf(false);
        s.push_leaf(false);
        s.push_leaf(true);
        s
    }

    fn witness_values(&self) -> Vec<FieldValue> {
        vec![
            FieldValue::from_u128(self.a as u128),
            FieldValue::from_u128(self.b as u128),
            FieldValue::from_u128(self.sum as u128),
        ]
    }
}

impl Circuit for Adder {
    fn define(e: &[VariableType], api: &mut CircuitBuilder) {
        let s = api.add(&e[0], &e[1]);
        api.assert_is_equal(&s, &e[2]);
    }
}

/// `product = x * y`, with `product` public.
struct Multiplier {
    x: u32,
    y: u32,
    product: u32,
}

impl CircuitWitness for Multiplier {
    fn schema() -> CircuitSchema {
        let mut s = CircuitSchema::new();
        s.push_leaf(false);
        s.push_leaf(false);
        s.push_leaf(true);
        s
    }

    fn witness_values(&self) -> Vec<FieldValue> {
        vec![
            FieldValue::from_u128(self.x as u128),
            FieldValue::from_u128(self.y as u128),
            FieldValue::from_u128(self.product as u128),
        ]
    }
}

impl Circuit for Multiplier {
    fn define(e: &[VariableType], api: &mut CircuitBuilder) {
        let p = api.mul(&e[0], &e[1]);
        api.assert_is_equal(&p, &e[2]);
    }
}

/// An adder and a multiplier, both public fields, and `sum + product == final_result`.
struct Composite {
    adder: Adder,
    multiplier: Multiplier,
    final_result: u32,
}

impl CircuitWitness for Composite {
    fn schema() -> CircuitSchema {
        let mut s = CircuitSchema::new();
        s.push_field(true, &Adder::schema());
        s.push_field(true, &Multiplier::schema());
        s.push_leaf(true);
        s
    }

    fn witness_values(&self) -> Vec<FieldValue> {
        let mut v = self.adder.witness_values();
        v.extend(self.multiplier.witness_values());
        v.push(FieldValue::from_u128(self.final_result as u128));
        v
    }
}

impl Circuit for Composite {
    fn define(e: &[VariableType], api: &mut CircuitBuilder) {
        Adder::define(&e[0..3], api);
        Multiplier::define(&e[3..6], api);
        let total = api.add(&e[2], &e[5]);
        api.assert_is_equal(&total, &e[6]);
    }
}

fn mock_metadata() -> MetadataInfo {
    MetadataInfo::for_curve(CurveType::Mock, ProvingSystem::Mock)
}

fn definition_of<C: Circuit>() -> CircuitDefinition {
    rsnark::backend::define_circuit::<C>(&C::schema(), mock_metadata()).definition
}

fn in_range(v: &VariableType, d: &CircuitDefinition) -> bool {
    match v {
        VariableType::Public(i) => *i < d.public_len,
        VariableType::Private(i) => *i < d.private_len,
        VariableType::Local(i) => *i < d.local_len,
        VariableType::Constant(_) => true,
    }
}

#[test]
fn index_density_of_each_kind() {
    let mut initer = VariableIniter::new();
    let privs: Vec<VariableType> = (0..4).map(|_| initer.new_private()).collect();
    let pubs: Vec<VariableType> = (0..3).map(|_| initer.new_public(false)).collect();
    let locals: Vec<VariableType> = (0..2).map(|_| initer.new_local()).collect();
    assert_eq!(privs, (0..4).map(VariableType::Private).collect::<Vec<_>>());
    assert_eq!(pubs, (0..3).map(VariableType::Public).collect::<Vec<_>>());
    assert_eq!(locals, (0..2).map(VariableType::Local).collect::<Vec<_>>());
    assert_eq!(initer.private_index(), 4);
    assert_eq!(initer.public_index(), 3);
    assert_eq!(initer.local_index(), 2);
}

#[test]
fn forced_public_field_is_private() {
    let mut initer = VariableIniter::new();
    assert_eq!(initer.new_public(true), VariableType::Private(0));
    assert_eq!(initer.new_public(false), VariableType::Public(0));
    assert_eq!(initer.public_index(), 1);
    assert_eq!(initer.private_index(), 1);
}

#[test]
fn order_matching_on_test_circuit() {
    let schema = TestCircuit::schema();
    let mut initer = VariableIniter::new();
    let element = schema.create_public(&mut initer, false);
    assert_eq!(
        element,
        vec![VariableType::Private(0), VariableType::Private(1), VariableType::Public(0)]
    );
    let w = TestCircuit { a: 3, b: 4, c: 7 }.witness_values();
    let mut public = Vec::new();
    let mut private = Vec::new();
    schema.append_witness(&w, &mut public, &mut private, false);
    assert_eq!(public, values(&[7]));
    assert_eq!(private, values(&[3, 4]));
    assert_eq!(schema.into_public_witness(&w), values(&[7]));
}

#[test]
fn order_matching_on_composite_circuit() {
    let schema = Composite::schema();
    let mut initer = VariableIniter::new();
    let element = schema.create_public(&mut initer, false);
    let w = Composite {
        adder: Adder { a: 1, b: 2, sum: 3 },
        multiplier: Multiplier { x: 2, y: 3, product: 6 },
        final_result: 9,
    }
    .witness_values();
    let witness = schema.witness(&w).unwrap();
    for (i, r) in element.iter().enumerate() {
        match r {
            VariableType::Public(k) => assert_eq!(witness.public[*k as usize], w[i]),
            VariableType::Private(k) => assert_eq!(witness.private[*k as usize], w[i]),
            _ => panic!("an input must be public or private"),
        }
    }
    assert_eq!(witness.public, values(&[3, 6, 9]));
    assert_eq!(witness.private, values(&[1, 2, 2, 3]));
}

#[test]
fn private_field_makes_sub_circuit_private() {
    let mut schema = CircuitSchema::new();
    schema.push_leaf(true);
    schema.push_field(false, &Adder::schema());
    let mut initer = VariableIniter::new();
    let element = schema.create_public(&mut initer, false);
    assert_eq!(
        element,
        vec![
            VariableType::Public(0),
            VariableType::Private(0),
            VariableType::Private(1),
            VariableType::Private(2),
        ]
    );
    let w = values(&[5, 1, 2, 3]);
    let mut public = Vec::new();
    let mut private = Vec::new();
    schema.append_witness(&w, &mut public, &mut private, false);
    assert_eq!(public, values(&[5]));
    assert_eq!(private, values(&[1, 2, 3]));
    assert_eq!(schema.into_public_witness(&w), values(&[5]));
}

#[test]
fn forced_private_walk_sends_everything_private() {
    let schema = TestCircuit::schema();
    let mut initer = VariableIniter::new();
    let element = schema.create_private(&mut initer);
    assert_eq!(
        element,
        vec![VariableType::Private(0), VariableType::Private(1), VariableType::Private(2)]
    );
    let w = values(&[3, 4, 7]);
    let mut public = Vec::new();
    let mut private = Vec::new();
    schema.append_witness(&w, &mut public, &mut private, true);
    assert!(public.is_empty());
    assert_eq!(private, values(&[3, 4, 7]));
    let mut pw = Vec::new();
    schema.append_public_witness(&w, &mut pw, true);
    assert!(pw.is_empty());
}

#[test]
fn end_to_end_add_circuit() {
    let d = definition_of::<TestCircuit>();
    assert_eq!((d.private_len, d.public_len, d.local_len), (2, 1, 1));
    assert_eq!(d.operations.len(), 2);
    assert_eq!(d.operations[0].op, OpCode::Add);
    assert_eq!(d.operations[0].inputs, vec![VariableType::Private(0), VariableType::Private(1)]);
    assert_eq!(d.operations[0].outputs, vec![VariableType::Local(0)]);
    assert_eq!(d.operations[1].op, OpCode::AssertIsEqual);
    assert_eq!(d.operations[1].inputs, vec![VariableType::Local(0), VariableType::Public(0)]);
    assert!(d.operations[1].outputs.is_empty());

    let prover: Prover<MockProverBackend> = Prover::new();
    let circuit_prover = prover.compile_circuit::<TestCircuit>().unwrap();
    let (pk, vk) = circuit_prover.setup().unwrap();
    let instance = TestCircuit { a: 3, b: 4, c: 7 };
    let witness = TestCircuit::schema().witness(&instance.witness_values()).unwrap();
    assert_eq!(witness.public, values(&[7]));
    assert_eq!(witness.private, values(&[3, 4]));
    let proof = circuit_prover.prove(&pk, &instance).unwrap();
    assert!(circuit_prover.verify(&vk, &proof, &values(&[7])).unwrap());
    assert!(!circuit_prover.verify(&vk, &proof, &values(&[8])).unwrap());
    assert!(circuit_prover.verify(&vk, &proof, &values(&[7, 7])).is_err());
}

#[test]
fn composite_circuit_has_no_collisions() {
    let d = definition_of::<Composite>();
    assert_eq!((d.private_len, d.public_len, d.local_len), (4, 3, 3));
    let ops: Vec<OpCode> = d.operations.iter().map(|o| o.op).collect();
    assert_eq!(
        ops,
        vec![
            OpCode::Add,
            OpCode::AssertIsEqual,
            OpCode::Mul,
            OpCode::AssertIsEqual,
            OpCode::Add,
            OpCode::AssertIsEqual
        ]
    );
    let outs: Vec<VariableType> = d.operations.iter().flat_map(|o| o.outputs.clone()).collect();
    assert_eq!(outs, vec![VariableType::Local(0), VariableType::Local(1), VariableType::Local(2)]);
    assert_eq!(d.operations[0].inputs, vec![VariableType::Private(0), VariableType::Private(1)]);
    assert_eq!(d.operations[2].inputs, vec![VariableType::Private(2), VariableType::Private(3)]);
    assert_eq!(d.operations[4].inputs, vec![VariableType::Public(0), VariableType::Public(1)]);
    assert_eq!(d.operations[5].inputs, vec![VariableType::Local(2), VariableType::Public(2)]);
    for o in &d.operations {
        assert!(o.inputs.iter().chain(o.outputs.iter()).all(|v| in_range(v, &d)));
    }
}

#[test]
fn composite_circuit_proves_with_mock() {
    let prover: Prover<MockProverBackend> = Prover::new();
    let cp = prover.compile_circuit::<Composite>().unwrap();
    let (pk, vk) = cp.setup().unwrap();
    let instance = Composite {
        adder: Adder { a: 1, b: 2, sum: 3 },
        multiplier: Multiplier { x: 2, y: 3, product: 6 },
        final_result: 9,
    };
    let proof = cp.prove(&pk, &instance).unwrap();
    assert!(cp.verify(&vk, &proof, &values(&[3, 6, 9])).unwrap());
    assert_eq!(cp.definition().operations.len(), 6);
}

#[test]
fn interleaved_allocation_is_dense_per_kind() {
    let mut initer = VariableIniter::default();
    let mut privs = Vec::new();
    let mut pubs = Vec::new();
    let mut locals = Vec::new();
    for step in 0..12 {
        match step % 4 {
            0 => privs.push(initer.new_private()),
            1 => pubs.push(initer.new_public(false)),
            2 => locals.push(initer.new_local()),
            _ => privs.push(initer.new_public(true)),
        }
    }
    assert_eq!(privs, (0..6).map(VariableType::Private).collect::<Vec<_>>());
    assert_eq!(pubs, (0..3).map(VariableType::Public).collect::<Vec<_>>());
    assert_eq!(locals, (0..3).map(VariableType::Local).collect::<Vec<_>>());
    assert_eq!((initer.private_index(), initer.public_index(), initer.local_index()), (6, 3, 3));
}

#[test]
fn definition_pass_reports_the_inputs() {
    let defined = rsnark::backend::define_circuit::<Composite>(&Composite::schema(), mock_metadata());
    assert_eq!(
        defined.inputs,
        vec![
            VariableType::Private(0),
            VariableType::Private(1),
            VariableType::Public(0),
            VariableType::Private(2),
            VariableType::Private(3),
            VariableType::Public(1),
            VariableType::Public(2),
        ]
    );
    let mut seen = Vec::new();
    for o in &defined.definition.operations {
        for v in &o.outputs {
            assert!(!seen.contains(v));
            seen.push(v.clone());
        }
    }
    assert_eq!(seen.len() as u64, defined.definition.local_len);
}
