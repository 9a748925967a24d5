use rsnark::backend::{Circuit, CircuitWitness, Prover};
use rsnark::builder::CircuitBuilder;
use rsnark::circuit::CircuitSchema;
use rsnark::gnark::{
    compile_outcome, export_outcome, serialize_outcome, setup_outcome, solidity_words_outcome,
    verify_outcome, Groth16Proof,
    write_outcome, CompiledCircuit, Error, GoInnerRef, Groth16Backend, Groth16Prover,
    Groth16VerifyingKey, Object, PlonkBackend, PlonkProver,
};
use rsnark::metadata::BN254;
use rsnark::value::FieldValue;
use rsnark::variable::VariableType;

/// Stands in for the Go runtime: it answers as gnark does for a circuit `c = a + b` whose
/// only valid public witness is `[7]`.
struct FakeGo;

const WITNESS_OK: &str = "{\"public\":[\"7\"],\"private\":[\"3\",\"4\"]}";
const PUBLIC_OK: &str = "{\"public\":[\"7\"]}";

fn setup_answer() -> Vec<u8> {
    let mut v = 11i64.to_be_bytes().to_vec();
    v.extend(12i64.to_be_bytes());
    v
}

impl Groth16Prover for FakeGo {
    fn groth16_create(curve_id: u64) -> u64 {
        100 + curve_id
    }
    fn groth16_compile(curve_id: u64, circuit: Vec<u8>) -> i64 {
        if curve_id == 1 && circuit.starts_with(b"{\"private_len\":2,") { 10 } else { -20001 }
    }
    fn groth16_setup(prover: u64, compiled_circuit: i64) -> Vec<u8> {
        if prover == 101 && compiled_circuit == 10 { setup_answer() } else { (-20011i64).to_be_bytes().to_vec() }
    }
    fn groth16_prove(_prover: u64, _cc: i64, pk: i64, witness: Vec<u8>) -> i64 {
        if pk == 11 && witness == WITNESS_OK.as_bytes() { 13 } else { -20008 }
    }
    fn groth16_verify(_prover: u64, vk: i64, proof: i64, public_witness: Vec<u8>) -> i64 {
        if vk == 12 && proof == 13 && public_witness == PUBLIC_OK.as_bytes() { 0 } else { -20010 }
    }
    fn groth16_remove_prover(_prover: u64) {}
}

impl PlonkProver for FakeGo {
    fn plonk_create(curve_id: u64) -> u64 {
        200 + curve_id
    }
    fn plonk_compile(_curve_id: u64, _circuit: Vec<u8>) -> i64 {
        -20002
    }
    fn plonk_setup(_prover: u64, _compiled_circuit: i64) -> Vec<u8> {
        vec![]
    }
    fn plonk_prove(_prover: u64, _cc: i64, _pk: i64, _witness: Vec<u8>) -> i64 {
        -20008
    }
    fn plonk_verify(_prover: u64, _vk: i64, _proof: i64, _pw: Vec<u8>) -> i64 {
        -1
    }
    fn plonk_remove_prover(_prover: u64) {}
}

impl Object for FakeGo {
    fn serialize(object_id: i64) -> Vec<u8> {
        if object_id == 10 { vec![1, 2, 3] } else { vec![] }
    }
    fn deserialize(ty: u64, curve_id: u64, data: Vec<u8>) -> i64 {
        if ty == 3 && curve_id == 1 && data == vec![1, 2, 3] { 10 } else { -10001 }
    }
    fn write_to_file(_object_id: i64, path: String) -> i64 {
        if path.is_empty() { -10004 } else { 0 }
    }
    fn read_from_file(_ty: u64, _curve_id: u64, path: String) -> i64 {
        if path.is_empty() { -10002 } else { 15 }
    }
    fn remove_object(_object_id: i64) {}
    fn export_solidity(object_id: i64, type_id: u64) -> Vec<u8> {
        if object_id == 13 && type_id == 3 {
            let mut v = 0i64.to_be_bytes().to_vec();
            let mut w = vec![0u8; 32];
            w[0] = 1;
            w[1] = 2;
            v.extend(w);
            let mut top = vec![0u8; 32];
            top[31] = 1;
            v.extend(top);
            v.extend([9u8; 5]);
            return v;
        }
        if object_id == 12 && type_id == 1 {
            let mut v = 0i64.to_be_bytes().to_vec();
            v.extend(b"contract Verifier {}");
            v
        } else {
            (-10006i64).to_be_bytes().to_vec()
        }
    }
}

struct TestCircuit {
    a: u32,
    b: u32,
    c: u32,
}

impl CircuitWitness for TestCircuit {
    fn schema() -> CircuitSchema {
        let mut s = CircuitSchema::new();
        s.push_leaf(false);
        s.push_leaf(false);
        s.push_leaf(true);
        s
    }

    fn witness_values(&self) -> Vec<FieldValue> {
        vec![
            FieldValue::from_u128(self.a as u128),
            FieldValue::from_u128(self.b as u128),
            FieldValue::from_u128(self.c as u128),
        ]
    }
}

impl Circuit for TestCircuit {
    fn define(e: &[VariableType], api: &mut CircuitBuilder) {
        let c = api.add(&e[0], &e[1]);
        api.assert_is_equal(&c, &e[2]);
    }
}

#[test]
fn test_groth16_with_core_prover() {
    let prover: Prover<Groth16Backend<BN254, FakeGo>> = Prover::new();

    let circuit_prover = prover.compile_circuit::<TestCircuit>().unwrap();

    let (pk, vk) = circuit_prover.setup().unwrap();

    let circuit_witness = TestCircuit { a: 3, b: 4, c: 7 };

    let proof = circuit_prover.prove(&pk, &circuit_witness).unwrap();

    let public_witness = TestCircuit::schema().into_public_witness(&circuit_witness.witness_values());
    assert!(circuit_prover.verify(&vk, &proof, &public_witness).unwrap());
}

#[test]
fn groth16_rejects_a_wrong_witness() {
    let prover: Prover<Groth16Backend<BN254, FakeGo>> = Prover::new();
    let cp = prover.compile_circuit::<TestCircuit>().unwrap();
    let (pk, vk) = cp.setup().unwrap();
    let wrong = TestCircuit { a: 3, b: 4, c: 8 };
    assert!(cp.prove(&pk, &wrong).is_err());
    let good = cp.prove(&pk, &TestCircuit { a: 3, b: 4, c: 7 }).unwrap();
    let eight = vec![FieldValue::from_u128(8)];
    assert!(!cp.verify(&vk, &good, &eight).unwrap());
}

#[test]
fn plonk_compile_failure_is_reported() {
    let prover: Prover<PlonkBackend<BN254, FakeGo>> = Prover::new();
    match prover.compile_circuit::<TestCircuit>() {
        Err(rsnark::backend::ProverError::Backend(e)) => assert_eq!(e, Error::CompileError),
        _ => panic!("compile must fail"),
    }
}

#[test]
fn go_error_codes() {
    assert_eq!(Error::from_go_error(-10003), Error::SerializeError);
    assert_eq!(Error::from_go_error(-20006), Error::ConvertCompiledCircuitError);
    assert_eq!(Error::from_go_error(-20010), Error::VerifyError);
    assert_eq!(Error::from_go_error(-10006), Error::ExportSolidityError);
    assert_eq!(Error::from_go_error(-7), Error::UnknownGoError(-7));
    assert_eq!(Error::from_go_error(5), Error::UnknownGoError(5));
    assert_eq!(Error::ProverNotFoundError.message(), "prover not found");
}

#[test]
fn runtime_answers_are_decoded() {
    assert_eq!(compile_outcome(4), Ok(4));
    assert_eq!(compile_outcome(-20002), Err(Error::CompileError));
    assert_eq!(verify_outcome(0), Ok(true));
    assert_eq!(verify_outcome(-20010), Ok(false));
    assert_eq!(verify_outcome(-20011), Err(Error::ProverNotFoundError));
    assert_eq!(setup_outcome(&setup_answer()), Ok((11, 12)));
    let mut bad = (-20004i64).to_be_bytes().to_vec();
    bad.extend(12i64.to_be_bytes());
    assert_eq!(setup_outcome(&bad), Err(Error::SetupError));
    assert_eq!(setup_outcome(&vec![0; 15]), Err(Error::SetupError));
    let mut big = i64::MAX.to_be_bytes().to_vec();
    big.extend(i64::MIN.to_be_bytes());
    assert_eq!(setup_outcome(&big), Err(Error::UnknownGoError(i64::MAX)));
    assert_eq!(serialize_outcome(vec![]), Err(Error::SerializeError));
    assert_eq!(serialize_outcome(vec![9]), Ok(vec![9]));
    assert_eq!(write_outcome(0), Ok(()));
    assert_eq!(write_outcome(-10004), Err(Error::WriteToFileError));
    let mut exported = 0i64.to_be_bytes().to_vec();
    exported.extend(b"pragma");
    assert_eq!(export_outcome(&exported), Ok("pragma".to_string()));
    let mut not_utf8 = 0i64.to_be_bytes().to_vec();
    not_utf8.push(0xff);
    assert_eq!(export_outcome(&not_utf8), Err(Error::ConvertToStringError));
    assert_eq!(export_outcome(&vec![0; 3]), Err(Error::ExportSolidityError));
    assert_eq!(export_outcome(&(-10006i64).to_be_bytes().to_vec()), Err(Error::ExportSolidityError));
}

#[test]
fn objects_go_through_the_runtime() {
    let backend: Groth16Backend<BN254, FakeGo> = Groth16Backend::create();
    let cs: CompiledCircuit<BN254, FakeGo> = CompiledCircuit::from_go_inner_ref(10);
    assert_eq!(cs.serialize(), Ok(vec![1, 2, 3]));
    let back: CompiledCircuit<BN254, FakeGo> = CompiledCircuit::deserialize(vec![1, 2, 3]).unwrap();
    assert_eq!(back.go_inner_ref(), 10);
    assert!(CompiledCircuit::<BN254, FakeGo>::deserialize(vec![]).is_err());
    assert_eq!(CompiledCircuit::<BN254, FakeGo>::write_to_file(10, "cs.bin".to_string()), Ok(()));
    let read = CompiledCircuit::<BN254, FakeGo>::read_from_file("cs.bin".to_string()).unwrap();
    assert_eq!(read.go_inner_ref(), 15);
    let vk: Groth16VerifyingKey<BN254, FakeGo> = Groth16VerifyingKey::from_go_inner_ref(12);
    assert_eq!(vk.export_solidity(), Ok("contract Verifier {}".to_string()));
    vk.remove_object();
    back.remove_object();
    backend.remove_prover();
}

#[test]
fn proof_words_for_solidity() {
    let proof: Groth16Proof<BN254, FakeGo> = Groth16Proof::from_go_inner_ref(13);
    let words = proof.to_solidity().unwrap();
    assert_eq!(words.len(), 2);
    assert_eq!(words[0], FieldValue::from_u128(513));
    let two_to_248 = b"452312848583266388373324160190187140051835877600158453279131187530910662656";
    assert_eq!(words[1].to_decimal(), two_to_248.to_vec());
    let other: Groth16Proof<BN254, FakeGo> = Groth16Proof::from_go_inner_ref(99);
    assert_eq!(other.to_solidity(), Err(Error::ExportSolidityError));
    assert_eq!(solidity_words_outcome(&vec![1, 2]), Err(Error::ExportSolidityError));
    assert_eq!(solidity_words_outcome(&0i64.to_be_bytes().to_vec()), Ok(vec![]));
}

#[test]
fn little_endian_words() {
    assert_eq!(FieldValue::from_le_bytes(&[]), FieldValue::zero());
    assert_eq!(FieldValue::from_le_bytes(&[0xff, 0xff, 0xff, 0xff]), FieldValue::from_u128(4294967295));
    assert_eq!(
        FieldValue::from_le_bytes(&[1, 0, 0, 0, 0, 0, 0, 0, 2, 0, 0, 0]),
        FieldValue::from_u128((2u128 << 64) + 1)
    );
    assert_eq!(FieldValue::from_le_bytes(&[1, 2, 3]), FieldValue::from_u128(0x030201));
    assert_eq!(FieldValue::from_le_bytes(&[0, 0, 0, 0, 5]), FieldValue::from_u128(5u128 << 32));
    assert_eq!(FieldValue::from_le_bytes(&[0, 0]), FieldValue::zero());
}
