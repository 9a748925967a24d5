use rsnark::builder::CircuitBuilder;
use rsnark::circuit::CircuitSchema;
use rsnark::metadata::{CurveId, CurveType, MetadataInfo, ProvingSystem, BN254, BW6_761};
use rsnark::mock::MockProverBackend;
use rsnark::types::{PublicWitness, Witness};
use rsnark::value::FieldValue;

fn text(b: Vec<u8>) -> String {
    String::from_utf8(b).unwrap()
}

#[test]
fn definition_wire_format() {
    let mut api = CircuitBuilder::new(MetadataInfo::for_curve(CurveType::Mock, ProvingSystem::Mock));
    let mut schema = CircuitSchema::new();
    schema.push_leaf(false);
    schema.push_leaf(false);
    schema.push_leaf(true);
    let e = api.create_element(&schema, false);
    let c = api.add(&e[0], &e[1]);
    api.assert_is_equal(&c, &e[2]);
    api.mul(&c, &-12i32);
    let d = api.build();
    assert_eq!(
        text(d.to_wire()),
        [
            "{\"private_len\":2,\"public_len\":1,\"local_len\":2,\"operations\":[",
            "{\"op\":\"add\",\"in\":[{\"t\":\"private\",\"v\":0},{\"t\":\"private\",\"v\":1}],",
            "\"out\":[{\"t\":\"local\",\"v\":0}]},",
            "{\"op\":\"assert_is_equal\",\"in\":[{\"t\":\"local\",\"v\":0},{\"t\":\"public\",\"v\":0}],",
            "\"out\":[]},",
            "{\"op\":\"mul\",\"in\":[{\"t\":\"local\",\"v\":0},{\"t\":\"constant\",\"v\":\"-12\"}],",
            "\"out\":[{\"t\":\"local\",\"v\":1}]}]}",
        ]
        .concat()
    );
}

#[test]
fn empty_definition_wire_format() {
    let api = CircuitBuilder::new(MetadataInfo::for_curve(CurveType::Mock, ProvingSystem::Mock));
    assert_eq!(
        text(api.build().to_wire()),
        "{\"private_len\":0,\"public_len\":0,\"local_len\":0,\"operations\":[]}"
    );
}

#[test]
fn witness_wire_format() {
    let w = Witness::from_parts(
        vec![FieldValue::from_u128(7)],
        vec![FieldValue::from_u128(3), FieldValue::from_i128(-4)],
    );
    assert_eq!(text(w.to_wire()), "{\"public\":[\"7\"],\"private\":[\"3\",\"-4\"]}");
    assert_eq!(text(w.to_public().to_wire()), "{\"public\":[\"7\"]}");
    assert_eq!(text(Witness::new().to_wire()), "{\"public\":[],\"private\":[]}");
    assert_eq!(text(PublicWitness::new().to_wire()), "{\"public\":[]}");
}

#[test]
fn decimal_text_round_trip() {
    for x in [0i128, 1, -1, 9, 10, 4294967295, 4294967296, -18446744073709551616, i128::MIN, i128::MAX] {
        let v = FieldValue::from_i128(x);
        let t = v.to_decimal();
        assert_eq!(text(t.clone()), x.to_string());
        assert_eq!(FieldValue::parse_decimal(&t), Some(v));
    }
    let m = FieldValue::from_u128(u128::MAX);
    assert_eq!(text(m.to_decimal()), u128::MAX.to_string());
}

#[test]
fn decimal_text_is_checked() {
    assert_eq!(FieldValue::parse_decimal(b""), None);
    assert_eq!(FieldValue::parse_decimal(b"-"), None);
    assert_eq!(FieldValue::parse_decimal(b"+5"), None);
    assert_eq!(FieldValue::parse_decimal(b"1_000"), None);
    assert_eq!(FieldValue::parse_decimal(b"12a"), None);
    assert_eq!(FieldValue::parse_decimal(b"007"), Some(FieldValue::from_u128(7)));
    assert_eq!(FieldValue::parse_decimal(b"-0"), Some(FieldValue::zero()));
    let big = b"258664426012969094010652733694893533536393512754914660539884262666720468348340822774968888139573360124440321458177";
    let v = FieldValue::parse_decimal(big).unwrap();
    assert_eq!(v.to_decimal(), big.to_vec());
}

#[test]
fn curve_fields_and_ids() {
    assert_eq!(
        text(BN254::field().to_decimal()),
        "21888242871839275222246405745257275088548364400416034343698204186575808495617"
    );
    assert_eq!(BN254::curve_id(), 1);
    assert_eq!(BW6_761::curve_id(), 5);
    assert_eq!(CurveType::BW6_633.curve_id(), 7);
    assert_eq!(
        text(CurveType::Mock.field().to_decimal()),
        "115792089237316195423570985008687907853269984665640564039457584007913129639935"
    );
    let m = MetadataInfo::for_curve(CurveType::BLS12_381, ProvingSystem::Groth16);
    assert_eq!(
        text(m.field.to_decimal()),
        "52435875175126190479447740508185965837690552500527637822603658699938581184513"
    );
}

#[test]
fn mock_proof_is_digest_of_public_witness() {
    let w = Witness::from_parts(vec![FieldValue::from_u128(7)], vec![FieldValue::from_u128(3)]);
    let proof = MockProverBackend::proof_of(&w);
    assert_eq!(proof.len(), 32);
    assert!(MockProverBackend::check(&proof, &w.to_public()));
    let other = PublicWitness { public: vec![FieldValue::from_u128(8)] };
    assert!(!MockProverBackend::check(&proof, &other));
    let same_public = Witness::from_parts(vec![FieldValue::from_u128(7)], vec![]);
    assert_eq!(MockProverBackend::proof_of(&same_public), proof);
}

#[test]
fn witness_round_trip_through_wire() {
    let big = FieldValue::parse_decimal(b"-340282366920938463463374607431768211457").unwrap();
    let w = Witness::from_parts(
        vec![FieldValue::from_u128(7), big.clone()],
        vec![FieldValue::from_u128(3), FieldValue::from_i128(-4), FieldValue::zero()],
    );
    let bytes = w.to_wire();
    assert_eq!(Witness::from_wire(&bytes), Some(w));
    let empty = Witness::new();
    assert_eq!(Witness::from_wire(&empty.to_wire()), Some(empty));
    let pw = PublicWitness { public: vec![big, FieldValue::from_u128(9)] };
    assert_eq!(PublicWitness::from_wire(&pw.to_wire()), Some(pw));
}

#[test]
fn witness_wire_is_checked() {
    assert_eq!(Witness::from_wire(b"{\"public\":[\"7\"],\"private\":[\"3\",\"4\"]}").unwrap().private.len(), 2);
    assert_eq!(Witness::from_wire(b""), None);
    assert_eq!(Witness::from_wire(b"{\"public\":[\"07\"],\"private\":[]}"), None);
    assert_eq!(Witness::from_wire(b"{\"public\":[7],\"private\":[]}"), None);
    assert_eq!(Witness::from_wire(b"{\"public\":[\"7\"],\"private\":[]} "), None);
    assert_eq!(Witness::from_wire(b"{\"public\":[\"7\",],\"private\":[]}"), None);
    assert_eq!(Witness::from_wire(b"{\"public\": [\"7\"],\"private\":[]}"), None);
    assert_eq!(PublicWitness::from_wire(b"{\"public\":[\"1\",\"-2\"]}").unwrap().public.len(), 2);
    assert_eq!(PublicWitness::from_wire(b"{\"public\":[\"x\"]}"), None);
}

fn sample_definition() -> rsnark::types::CircuitDefinition {
    let mut api = CircuitBuilder::new(MetadataInfo::for_curve(CurveType::Mock, ProvingSystem::Mock));
    let mut schema = CircuitSchema::new();
    schema.push_leaf(false);
    schema.push_leaf(true);
    let e = api.create_element(&schema, false);
    let s = api.add_multi(&e[0], &e[1], &[e[0].clone()]);
    let bits = api.variable_to_binary(&s, 3);
    api.lookup2(&bits[0], &bits[1], &1u8, &-2i32, &u128::MAX, &i128::MIN);
    api.div_unchecked(&0u32, &0u32);
    api.assert_is_less_or_equal(&s, &1000u64);
    api.assert_is_crumb(&bits[2]);
    api.println(&true);
    api.build()
}

#[test]
fn definition_round_trip_through_wire() {
    let d = sample_definition();
    let bytes = d.to_wire();
    assert_eq!(rsnark::types::CircuitDefinition::from_wire(&bytes), Some(d));
    let empty = CircuitBuilder::new(MetadataInfo::for_curve(CurveType::Mock, ProvingSystem::Mock)).build();
    assert_eq!(rsnark::types::CircuitDefinition::from_wire(&empty.to_wire()), Some(empty));
}

#[test]
fn definition_wire_is_checked() {
    let good = b"{\"private_len\":2,\"public_len\":1,\"local_len\":1,\"operations\":[{\"op\":\"add\",\"in\":[{\"t\":\"private\",\"v\":0},{\"t\":\"private\",\"v\":1}],\"out\":[{\"t\":\"local\",\"v\":0}]}]}";
    let d = rsnark::types::CircuitDefinition::from_wire(good).unwrap();
    assert_eq!(d.operations[0].op, rsnark::types::OpCode::Add);
    let unknown_op = b"{\"private_len\":0,\"public_len\":0,\"local_len\":0,\"operations\":[{\"op\":\"pow\",\"in\":[],\"out\":[]}]}";
    assert_eq!(rsnark::types::CircuitDefinition::from_wire(unknown_op), None);
    let bad_kind = b"{\"private_len\":0,\"public_len\":0,\"local_len\":0,\"operations\":[{\"op\":\"neg\",\"in\":[{\"t\":\"global\",\"v\":0}],\"out\":[]}]}";
    assert_eq!(rsnark::types::CircuitDefinition::from_wire(bad_kind), None);
    let too_big = b"{\"private_len\":18446744073709551616,\"public_len\":0,\"local_len\":0,\"operations\":[]}";
    assert_eq!(rsnark::types::CircuitDefinition::from_wire(too_big), None);
    let max = b"{\"private_len\":18446744073709551615,\"public_len\":0,\"local_len\":0,\"operations\":[]}";
    assert_eq!(rsnark::types::CircuitDefinition::from_wire(max).unwrap().private_len, u64::MAX);
    let leading_zero = b"{\"private_len\":01,\"public_len\":0,\"local_len\":0,\"operations\":[]}";
    assert_eq!(rsnark::types::CircuitDefinition::from_wire(leading_zero), None);
}
