//! A backend over the gnark proving library, which runs in a Go runtime. The calls into
//! that runtime stand behind three service traits; what comes back is decoded here.
use crate::backend::Backend;
use crate::metadata::{CurveId, MetadataInfo, ProvingSystem, BN254};
use crate::types::{CircuitDefinition, PublicWitness, Witness};
use crate::value::{le_value, FieldValue};
use std::marker::PhantomData;
use vstd::prelude::*;

verus! {

/// Failures reported by the Go runtime, or met while decoding its answers.
#[derive(Debug, Clone, Copy, PartialEq, Eq, Structural)]
pub enum Error {
    SerializeError,
    DeserializeError,
    WriteToFileError,
    ReadFromFileError,
    ConvertCompiledCircuitError,
    ConvertPkError,
    ConvertVkError,
    SetupError,
    ProveError,
    VerifyError,
    UnknownGoError(i64),
    CircuitDefinitionParseError,
    CompileError,
    ProofLengthWrong,
    ExportSolidityError,
    ProverNotFoundError,
    ObjectNotFoundError,
    ConvertToStringError,
}

/// The error that the Go runtime means by a negative result code.
pub open spec fn error_of_code(code: i64) -> Error {
    if code == -10003 {
        Error::SerializeError
    } else if code == -10001 {
        Error::DeserializeError
    } else if code == -10004 {
        Error::WriteToFileError
    } else if code == -10005 {
        Error::ConvertVkError
    } else if code == -10002 {
        Error::ReadFromFileError
    } else if code == -20001 {
        Error::CircuitDefinitionParseError
    } else if code == -20002 {
        Error::CompileError
    } else if code == -20003 {
        Error::ConvertCompiledCircuitError
    } else if code == -20004 {
        Error::SetupError
    } else if code == -20005 {
        Error::ConvertPkError
    } else if code == -20006 {
        Error::ConvertCompiledCircuitError
    } else if code == -20007 {
        Error::DeserializeError
    } else if code == -20008 {
        Error::ProveError
    } else if code == -20009 {
        Error::ConvertVkError
    } else if code == -20010 {
        Error::VerifyError
    } else if code == -20011 {
        Error::ProverNotFoundError
    } else if code == -20012 {
        Error::ObjectNotFoundError
    } else if code == -10006 {
        Error::ExportSolidityError
    } else {
        Error::UnknownGoError(code)
    }
}

impl Error {
    /// Maps a result code of the Go runtime to its error.
    pub fn from_go_error(code: i64) -> (r: Error)
        ensures
            r == error_of_code(code),
    {
        match code {
            -10003 => Error::SerializeError,
            -10001 => Error::DeserializeError,
            -10004 => Error::WriteToFileError,
            -10005 => Error::ConvertVkError,
            -10002 => Error::ReadFromFileError,
            -20001 => Error::CircuitDefinitionParseError,
            -20002 => Error::CompileError,
            -20003 => Error::ConvertCompiledCircuitError,
            -20004 => Error::SetupError,
            -20005 => Error::ConvertPkError,
            -20006 => Error::ConvertCompiledCircuitError,
            -20007 => Error::DeserializeError,
            -20008 => Error::ProveError,
            -20009 => Error::ConvertVkError,
            -20010 => Error::VerifyError,
            -20011 => Error::ProverNotFoundError,
            -20012 => Error::ObjectNotFoundError,
            -10006 => Error::ExportSolidityError,
            _ => Error::UnknownGoError(code),
        }
    }

    /// A short description of the error.
    pub fn message(&self) -> (r: &'static str) {
        match self {
            Error::SerializeError => "serialize error",
            Error::DeserializeError => "deserialize error",
            Error::WriteToFileError => "write to file error",
            Error::ReadFromFileError => "read from file error",
            Error::ConvertCompiledCircuitError => "convert compiled circuit to types.CompiledCircuit error",
            Error::ConvertPkError => "convert pk to types.Groth16ProvingKey error",
            Error::ConvertVkError => "convert vk to types.Groth16VerifyingKey error",
            Error::SetupError => "setup error",
            Error::ProveError => "prove error",
            Error::VerifyError => "verify error",
            Error::CircuitDefinitionParseError => "circuit definition parse error",
            Error::CompileError => "compile error",
            Error::ProofLengthWrong => "proof length is wrong",
            Error::ExportSolidityError => "failed to export solidity",
            Error::ProverNotFoundError => "prover not found",
            Error::ObjectNotFoundError => "object not found",
            Error::ConvertToStringError => "the exported text is not UTF-8",
            Error::UnknownGoError(_) => "unknown go error",
        }
    }
}

/// Big-endian value of some bytes.
pub open spec fn be_value(bytes: Seq<u8>) -> int
    decreases bytes.len(),
{
    if bytes.len() == 0 {
        0
    } else {
        be_value(bytes.drop_last()) * 256 + bytes.last()
    }
}

/// The signed 64-bit integer whose big-endian two's-complement bytes are `bytes`.
pub open spec fn be_i64(bytes: Seq<u8>) -> int {
    if be_value(bytes) >= 0x8000_0000_0000_0000 {
        be_value(bytes) - 0x1_0000_0000_0000_0000
    } else {
        be_value(bytes)
    }
}

/// 256 to the power `n`.
pub open spec fn pow256(n: nat) -> int
    decreases n,
{
    if n == 0 {
        1
    } else {
        256 * pow256((n - 1) as nat)
    }
}

proof fn lemma_be_value_bound(bytes: Seq<u8>)
    ensures
        0 <= be_value(bytes) < pow256(bytes.len()),
    decreases bytes.len(),
{
    if bytes.len() > 0 {
        lemma_be_value_bound(bytes.drop_last());
    }
}

proof fn lemma_pow256_le_7(n: nat)
    requires
        n <= 7,
    ensures
        pow256(n) <= 0x100_0000_0000_0000,
    decreases 7 - n,
{
    reveal_with_fuel(pow256, 8);
    if n < 7 {
        lemma_pow256_le_7(n + 1);
    }
}

/// Reads the signed integer held big-endian in `bytes[start..start + 8]`.
fn read_i64(bytes: &Vec<u8>, start: usize) -> (r: i64)
    requires
        start + 8 <= bytes@.len(),
    ensures
        r == be_i64(bytes@.subrange(start as int, start + 8)),
{
    let n = bytes.len();
    let mut acc: u64 = 0;
    let mut i: usize = 0;
    while i < 8
        invariant
            i <= 8,
            start + 8 <= bytes@.len(),
            n == bytes@.len(),
            acc == be_value(bytes@.subrange(start as int, start + i)),
        decreases 8 - i,
    {
        let ghost prefix = bytes@.subrange(start as int, start + i);
        proof {
            lemma_be_value_bound(prefix);
            lemma_pow256_le_7(i as nat);
            assert(acc < 0x100_0000_0000_0000);
            assert(bytes@.subrange(start as int, start + i + 1).drop_last() =~= prefix);
        }
        acc = acc * 256 + bytes[start + i] as u64;
        i += 1;
    }
    if acc >= 0x8000_0000_0000_0000 {
        ((acc - 0x8000_0000_0000_0000) as i64) + i64::MIN
    } else {
        acc as i64
    }
}

/// The handle that a result code names, or the error it reports.
pub fn compile_outcome(code: i64) -> (r: Result<i64, Error>)
    ensures
        code >= 0 ==> r == Ok::<i64, Error>(code),
        code < 0 ==> r == Err::<i64, Error>(error_of_code(code)),
{
    if code >= 0 {
        Ok(code)
    } else {
        Err(Error::from_go_error(code))
    }
}

/// The answer of a key setup: the handles of the proving and verifying keys, big-endian in
/// the first sixteen bytes, or an error.
pub fn setup_outcome(res: &Vec<u8>) -> (r: Result<(i64, i64), Error>)
    ensures
        res@.len() < 16 ==> r == Err::<(i64, i64), Error>(Error::SetupError),
        r matches Ok((p, v)) ==> p >= 0 && v >= 0,
        res@.len() >= 16 ==> ({
            let pk = be_i64(res@.subrange(0, 8));
            let vk = be_i64(res@.subrange(8, 16));
            if pk >= 0 && vk >= 0 {
                r == Ok::<(i64, i64), Error>((pk as i64, vk as i64))
            } else {
                r == Err::<(i64, i64), Error>(error_of_code(pk as i64))
            }
        }),
{
    if res.len() < 16 {
        return Err(Error::SetupError);
    }
    let pk = read_i64(res, 0);
    let vk = read_i64(res, 8);
    if pk >= 0 && vk >= 0 {
        Ok((pk, vk))
    } else {
        Err(Error::from_go_error(pk))
    }
}

/// The answer of a verification: 0 for a valid proof, the verify error's code for an
/// invalid one, any other code for a failure.
pub fn verify_outcome(code: i64) -> (r: Result<bool, Error>)
    ensures
        code == 0 ==> r == Ok::<bool, Error>(true),
        code == -20010 ==> r == Ok::<bool, Error>(false),
        code != 0 && code != -20010 ==> r == Err::<bool, Error>(error_of_code(code)),
{
    if code == 0 {
        Ok(true)
    } else if code == -20010 {
        Ok(false)
    } else {
        Err(Error::from_go_error(code))
    }
}

/// What a UTF-8 decoding of some bytes gives: the text, or `None` for bytes that are not
/// UTF-8.
pub uninterp spec fn utf8_text(bytes: Seq<u8>) -> Option<Seq<char>>;

/// Relies on `String::from_utf8`: the text of UTF-8 bytes, and an error for other bytes.
#[verifier::external_body]
fn decode_utf8(bytes: Vec<u8>) -> (r: Option<String>)
    ensures
        r is Some <==> utf8_text(bytes@) is Some,
        r matches Some(s) ==> utf8_text(bytes@) == Some(s@),
{
    String::from_utf8(bytes).ok()
}

/// The answer of an export: a big-endian result code in the first eight bytes, then, where
/// the code is 0, the exported text.
pub fn export_outcome(res: &Vec<u8>) -> (r: Result<String, Error>)
    ensures
        res@.len() < 8 ==> (r matches Err(e) && e == Error::ExportSolidityError),
        res@.len() >= 8 && be_i64(res@.subrange(0, 8)) != 0 ==> (r matches Err(e) && e
            == error_of_code(be_i64(res@.subrange(0, 8)) as i64)),
        res@.len() >= 8 && be_i64(res@.subrange(0, 8)) == 0 ==> match utf8_text(
            res@.subrange(8, res@.len() as int),
        ) {
            Some(t) => r matches Ok(s) && s@ == t,
            None => r matches Err(e) && e == Error::ConvertToStringError,
        },
{
    if res.len() < 8 {
        return Err(Error::ExportSolidityError);
    }
    let code = read_i64(res, 0);
    if code != 0 {
        return Err(Error::from_go_error(code));
    }
    let mut rest: Vec<u8> = Vec::new();
    let mut i: usize = 8;
    while i < res.len()
        invariant
            8 <= i <= res@.len(),
            rest@ == res@.subrange(8, i as int),
        decreases res@.len() - i,
    {
        rest.push(res[i]);
        i += 1;
        assert(rest@ =~= res@.subrange(8, i as int));
    }
    match decode_utf8(rest) {
        Some(s) => Ok(s),
        None => Err(Error::ConvertToStringError),
    }
}

/// The answer of a proof export: a big-endian result code in the first eight bytes, then,
/// where the code is 0, 32-byte little-endian words (a shorter tail is ignored).
pub fn solidity_words_outcome(res: &Vec<u8>) -> (r: Result<Vec<FieldValue>, Error>)
    ensures
        res@.len() < 8 ==> (r matches Err(e) && e == Error::ExportSolidityError),
        res@.len() >= 8 && be_i64(res@.subrange(0, 8)) != 0 ==> (r matches Err(e) && e
            == error_of_code(be_i64(res@.subrange(0, 8)) as i64)),
        res@.len() >= 8 && be_i64(res@.subrange(0, 8)) == 0 ==> (r matches Ok(ws) && ws@.len()
            == (res@.len() - 8) / 32 && forall|i: int|
            0 <= i < ws@.len() ==> (#[trigger] ws@[i])@ == le_value(
                res@.subrange(8 + 32 * i, 8 + 32 * i + 32),
            )),
{
    let n = res.len();
    if n < 8 {
        return Err(Error::ExportSolidityError);
    }
    let code = read_i64(res, 0);
    if code != 0 {
        return Err(Error::from_go_error(code));
    }
    let count = (n - 8) / 32;
    let mut words: Vec<FieldValue> = Vec::new();
    let mut i: usize = 0;
    while i < count
        invariant
            n == res@.len(),
            n >= 8,
            count == (n - 8) / 32,
            i <= count,
            words@.len() == i,
            forall|k: int|
                0 <= k < i ==> (#[trigger] words@[k])@ == le_value(
                    res@.subrange(8 + 32 * k, 8 + 32 * k + 32),
                ),
        decreases count - i,
    {
        let start = 8 + 32 * i;
        let mut word: Vec<u8> = Vec::new();
        let mut j: usize = 0;
        while j < 32
            invariant
                n == res@.len(),
                start + 32 <= n,
                j <= 32,
                word@ == res@.subrange(start as int, start + j),
            decreases 32 - j,
        {
            word.push(res[start + j]);
            j += 1;
            assert(word@ =~= res@.subrange(start as int, start + j));
        }
        words.push(FieldValue::from_le_bytes(word.as_slice()));
        i += 1;
    }
    Ok(words)
}

/// The answer of a serialization: the bytes, where there are any.
pub fn serialize_outcome(res: Vec<u8>) -> (r: Result<Vec<u8>, Error>)
    ensures
        res@.len() == 0 ==> (r matches Err(e) && e == Error::SerializeError),
        res@.len() > 0 ==> (r matches Ok(b) && b@ == res@),
{
    if res.len() == 0 {
        Err(Error::SerializeError)
    } else {
        Ok(res)
    }
}

/// The answer of a file write: 0 for success, else an error code.
pub fn write_outcome(code: i64) -> (r: Result<(), Error>)
    ensures
        code == 0 ==> r is Ok,
        code != 0 ==> r == Err::<(), Error>(error_of_code(code)),
{
    if code == 0 {
        Ok(())
    } else {
        Err(Error::from_go_error(code))
    }
}

/// The Go runtime's Groth16 prover service.
pub trait Groth16Prover {
    fn groth16_create(curve_id: u64) -> u64;

    fn groth16_compile(curve_id: u64, circuit: Vec<u8>) -> i64;

    fn groth16_setup(prover: u64, compiled_circuit: i64) -> Vec<u8>;

    fn groth16_prove(prover: u64, compiled_circuit: i64, pk: i64, witness: Vec<u8>) -> i64;

    fn groth16_verify(prover: u64, vk: i64, proof: i64, public_witness: Vec<u8>) -> i64;

    fn groth16_remove_prover(prover: u64);
}

/// The Go runtime's PLONK prover service.
pub trait PlonkProver {
    fn plonk_create(curve_id: u64) -> u64;

    fn plonk_compile(curve_id: u64, circuit: Vec<u8>) -> i64;

    fn plonk_setup(prover: u64, compiled_circuit: i64) -> Vec<u8>;

    fn plonk_prove(prover: u64, compiled_circuit: i64, pk: i64, witness: Vec<u8>) -> i64;

    fn plonk_verify(prover: u64, vk: i64, proof: i64, public_witness: Vec<u8>) -> i64;

    fn plonk_remove_prover(prover: u64);
}

/// The Go runtime's store of objects: compiled circuits, keys and proofs.
pub trait Object {
    fn serialize(object_id: i64) -> Vec<u8>;

    fn deserialize(ty: u64, curve_id: u64, data: Vec<u8>) -> i64;

    fn write_to_file(object_id: i64, path: String) -> i64;

    fn read_from_file(ty: u64, curve_id: u64, path: String) -> i64;

    fn remove_object(object_id: i64);

    fn export_solidity(object_id: i64, type_id: u64) -> Vec<u8>;
}

/// A value that stands for an object held by the Go runtime.
pub trait GoInnerRef: Sized {
    /// The runtime's handle of the object.
    fn go_inner_ref(&self) -> i64;

    fn from_go_inner_ref(ref_id: i64) -> Self;
}

/// A Groth16 proving key. It is released by [`Groth16ProvingKey::remove_object`].
pub struct Groth16ProvingKey<C, R> {
    go_ref_id: i64,
    marker: PhantomData<(C, R)>,
}

impl<C, R> GoInnerRef for Groth16ProvingKey<C, R> {
    fn go_inner_ref(&self) -> i64 {
        self.go_ref_id
    }

    fn from_go_inner_ref(ref_id: i64) -> Self {
        Groth16ProvingKey { go_ref_id: ref_id, marker: PhantomData }
    }
}

impl<C: CurveId, R: Object> Groth16ProvingKey<C, R> {
    /// The runtime's handle of the object.
    pub closed spec fn handle(&self) -> i64 {
        self.go_ref_id
    }

    /// The object in gnark's binary form.
    pub fn serialize(&self) -> (r: Result<Vec<u8>, Error>)
        ensures
            r matches Ok(b) ==> b@.len() > 0,
    {
        serialize_outcome(R::serialize(self.go_ref_id))
    }

    /// Writes the object with the given handle to a file.
    pub fn write_to_file(object_id: i64, path: String) -> (r: Result<(), Error>) {
        write_outcome(R::write_to_file(object_id, path))
    }

    /// Loads an object from gnark's binary form.
    pub fn deserialize(data: Vec<u8>) -> (r: Result<Self, Error>)
        ensures
            r matches Ok(o) ==> o.handle() >= 0,
    {
        match compile_outcome(R::deserialize(1, C::curve_id(), data)) {
            Ok(id) => Ok(Groth16ProvingKey { go_ref_id: id, marker: PhantomData }),
            Err(e) => Err(e),
        }
    }

    /// Loads an object from a file.
    pub fn read_from_file(path: String) -> (r: Result<Self, Error>)
        ensures
            r matches Ok(o) ==> o.handle() >= 0,
    {
        match compile_outcome(R::read_from_file(1, C::curve_id(), path)) {
            Ok(id) => Ok(Groth16ProvingKey { go_ref_id: id, marker: PhantomData }),
            Err(e) => Err(e),
        }
    }

    /// Releases the object held by the runtime.
    pub fn remove_object(self) {
        R::remove_object(self.go_ref_id)
    }
}

/// A Groth16 verifying key. It is released by [`Groth16VerifyingKey::remove_object`].
pub struct Groth16VerifyingKey<C, R> {
    go_ref_id: i64,
    marker: PhantomData<(C, R)>,
}

impl<C, R> GoInnerRef for Groth16VerifyingKey<C, R> {
    fn go_inner_ref(&self) -> i64 {
        self.go_ref_id
    }

    fn from_go_inner_ref(ref_id: i64) -> Self {
        Groth16VerifyingKey { go_ref_id: ref_id, marker: PhantomData }
    }
}

impl<C: CurveId, R: Object> Groth16VerifyingKey<C, R> {
    /// The runtime's handle of the object.
    pub closed spec fn handle(&self) -> i64 {
        self.go_ref_id
    }

    /// The object in gnark's binary form.
    pub fn serialize(&self) -> (r: Result<Vec<u8>, Error>)
        ensures
            r matches Ok(b) ==> b@.len() > 0,
    {
        serialize_outcome(R::serialize(self.go_ref_id))
    }

    /// Writes the object with the given handle to a file.
    pub fn write_to_file(object_id: i64, path: String) -> (r: Result<(), Error>) {
        write_outcome(R::write_to_file(object_id, path))
    }

    /// Loads an object from gnark's binary form.
    pub fn deserialize(data: Vec<u8>) -> (r: Result<Self, Error>)
        ensures
            r matches Ok(o) ==> o.handle() >= 0,
    {
        match compile_outcome(R::deserialize(2, C::curve_id(), data)) {
            Ok(id) => Ok(Groth16VerifyingKey { go_ref_id: id, marker: PhantomData }),
            Err(e) => Err(e),
        }
    }

    /// Loads an object from a file.
    pub fn read_from_file(path: String) -> (r: Result<Self, Error>)
        ensures
            r matches Ok(o) ==> o.handle() >= 0,
    {
        match compile_outcome(R::read_from_file(2, C::curve_id(), path)) {
            Ok(id) => Ok(Groth16VerifyingKey { go_ref_id: id, marker: PhantomData }),
            Err(e) => Err(e),
        }
    }

    /// Releases the object held by the runtime.
    pub fn remove_object(self) {
        R::remove_object(self.go_ref_id)
    }
}

/// A circuit compiled into gnark's constraint system. It is released by [`CompiledCircuit::remove_object`].
pub struct CompiledCircuit<C, R> {
    go_ref_id: i64,
    marker: PhantomData<(C, R)>,
}

impl<C, R> GoInnerRef for CompiledCircuit<C, R> {
    fn go_inner_ref(&self) -> i64 {
        self.go_ref_id
    }

    fn from_go_inner_ref(ref_id: i64) -> Self {
        CompiledCircuit { go_ref_id: ref_id, marker: PhantomData }
    }
}

impl<C: CurveId, R: Object> CompiledCircuit<C, R> {
    /// The runtime's handle of the object.
    pub closed spec fn handle(&self) -> i64 {
        self.go_ref_id
    }

    /// The object in gnark's binary form.
    pub fn serialize(&self) -> (r: Result<Vec<u8>, Error>)
        ensures
            r matches Ok(b) ==> b@.len() > 0,
    {
        serialize_outcome(R::serialize(self.go_ref_id))
    }

    /// Writes the object with the given handle to a file.
    pub fn write_to_file(object_id: i64, path: String) -> (r: Result<(), Error>) {
        write_outcome(R::write_to_file(object_id, path))
    }

    /// Loads an object from gnark's binary form.
    pub fn deserialize(data: Vec<u8>) -> (r: Result<Self, Error>)
        ensures
            r matches Ok(o) ==> o.handle() >= 0,
    {
        match compile_outcome(R::deserialize(3, C::curve_id(), data)) {
            Ok(id) => Ok(CompiledCircuit { go_ref_id: id, marker: PhantomData }),
            Err(e) => Err(e),
        }
    }

    /// Loads an object from a file.
    pub fn read_from_file(path: String) -> (r: Result<Self, Error>)
        ensures
            r matches Ok(o) ==> o.handle() >= 0,
    {
        match compile_outcome(R::read_from_file(3, C::curve_id(), path)) {
            Ok(id) => Ok(CompiledCircuit { go_ref_id: id, marker: PhantomData }),
            Err(e) => Err(e),
        }
    }

    /// Releases the object held by the runtime.
    pub fn remove_object(self) {
        R::remove_object(self.go_ref_id)
    }
}

/// A Groth16 proof. It is released by [`Groth16Proof::remove_object`].
pub struct Groth16Proof<C, R> {
    go_ref_id: i64,
    marker: PhantomData<(C, R)>,
}

impl<C, R> GoInnerRef for Groth16Proof<C, R> {
    fn go_inner_ref(&self) -> i64 {
        self.go_ref_id
    }

    fn from_go_inner_ref(ref_id: i64) -> Self {
        Groth16Proof { go_ref_id: ref_id, marker: PhantomData }
    }
}

impl<C: CurveId, R: Object> Groth16Proof<C, R> {
    /// The runtime's handle of the object.
    pub closed spec fn handle(&self) -> i64 {
        self.go_ref_id
    }

    /// The object in gnark's binary form.
    pub fn serialize(&self) -> (r: Result<Vec<u8>, Error>)
        ensures
            r matches Ok(b) ==> b@.len() > 0,
    {
        serialize_outcome(R::serialize(self.go_ref_id))
    }

    /// Writes the object with the given handle to a file.
    pub fn write_to_file(object_id: i64, path: String) -> (r: Result<(), Error>) {
        write_outcome(R::write_to_file(object_id, path))
    }

    /// Loads an object from gnark's binary form.
    pub fn deserialize(data: Vec<u8>) -> (r: Result<Self, Error>)
        ensures
            r matches Ok(o) ==> o.handle() >= 0,
    {
        match compile_outcome(R::deserialize(4, C::curve_id(), data)) {
            Ok(id) => Ok(Groth16Proof { go_ref_id: id, marker: PhantomData }),
            Err(e) => Err(e),
        }
    }

    /// Loads an object from a file.
    pub fn read_from_file(path: String) -> (r: Result<Self, Error>)
        ensures
            r matches Ok(o) ==> o.handle() >= 0,
    {
        match compile_outcome(R::read_from_file(4, C::curve_id(), path)) {
            Ok(id) => Ok(Groth16Proof { go_ref_id: id, marker: PhantomData }),
            Err(e) => Err(e),
        }
    }

    /// Releases the object held by the runtime.
    pub fn remove_object(self) {
        R::remove_object(self.go_ref_id)
    }
}

/// A PLONK proving key. It is released by [`PlonkProvingKey::remove_object`].
pub struct PlonkProvingKey<C, R> {
    go_ref_id: i64,
    marker: PhantomData<(C, R)>,
}

impl<C, R> GoInnerRef for PlonkProvingKey<C, R> {
    fn go_inner_ref(&self) -> i64 {
        self.go_ref_id
    }

    fn from_go_inner_ref(ref_id: i64) -> Self {
        PlonkProvingKey { go_ref_id: ref_id, marker: PhantomData }
    }
}

impl<C: CurveId, R: Object> PlonkProvingKey<C, R> {
    /// The runtime's handle of the object.
    pub closed spec fn handle(&self) -> i64 {
        self.go_ref_id
    }

    /// The object in gnark's binary form.
    pub fn serialize(&self) -> (r: Result<Vec<u8>, Error>)
        ensures
            r matches Ok(b) ==> b@.len() > 0,
    {
        serialize_outcome(R::serialize(self.go_ref_id))
    }

    /// Writes the object with the given handle to a file.
    pub fn write_to_file(object_id: i64, path: String) -> (r: Result<(), Error>) {
        write_outcome(R::write_to_file(object_id, path))
    }

    /// Loads an object from gnark's binary form.
    pub fn deserialize(data: Vec<u8>) -> (r: Result<Self, Error>)
        ensures
            r matches Ok(o) ==> o.handle() >= 0,
    {
        match compile_outcome(R::deserialize(5, C::curve_id(), data)) {
            Ok(id) => Ok(PlonkProvingKey { go_ref_id: id, marker: PhantomData }),
            Err(e) => Err(e),
        }
    }

    /// Loads an object from a file.
    pub fn read_from_file(path: String) -> (r: Result<Self, Error>)
        ensures
            r matches Ok(o) ==> o.handle() >= 0,
    {
        match compile_outcome(R::read_from_file(5, C::curve_id(), path)) {
            Ok(id) => Ok(PlonkProvingKey { go_ref_id: id, marker: PhantomData }),
            Err(e) => Err(e),
        }
    }

    /// Releases the object held by the runtime.
    pub fn remove_object(self) {
        R::remove_object(self.go_ref_id)
    }
}

/// A PLONK verifying key. It is released by [`PlonkVerifyingKey::remove_object`].
pub struct PlonkVerifyingKey<C, R> {
    go_ref_id: i64,
    marker: PhantomData<(C, R)>,
}

impl<C, R> GoInnerRef for PlonkVerifyingKey<C, R> {
    fn go_inner_ref(&self) -> i64 {
        self.go_ref_id
    }

    fn from_go_inner_ref(ref_id: i64) -> Self {
        PlonkVerifyingKey { go_ref_id: ref_id, marker: PhantomData }
    }
}

impl<C: CurveId, R: Object> PlonkVerifyingKey<C, R> {
    /// The runtime's handle of the object.
    pub closed spec fn handle(&self) -> i64 {
        self.go_ref_id
    }

    /// The object in gnark's binary form.
    pub fn serialize(&self) -> (r: Result<Vec<u8>, Error>)
        ensures
            r matches Ok(b) ==> b@.len() > 0,
    {
        serialize_outcome(R::serialize(self.go_ref_id))
    }

    /// Writes the object with the given handle to a file.
    pub fn write_to_file(object_id: i64, path: String) -> (r: Result<(), Error>) {
        write_outcome(R::write_to_file(object_id, path))
    }

    /// Loads an object from gnark's binary form.
    pub fn deserialize(data: Vec<u8>) -> (r: Result<Self, Error>)
        ensures
            r matches Ok(o) ==> o.handle() >= 0,
    {
        match compile_outcome(R::deserialize(6, C::curve_id(), data)) {
            Ok(id) => Ok(PlonkVerifyingKey { go_ref_id: id, marker: PhantomData }),
            Err(e) => Err(e),
        }
    }

    /// Loads an object from a file.
    pub fn read_from_file(path: String) -> (r: Result<Self, Error>)
        ensures
            r matches Ok(o) ==> o.handle() >= 0,
    {
        match compile_outcome(R::read_from_file(6, C::curve_id(), path)) {
            Ok(id) => Ok(PlonkVerifyingKey { go_ref_id: id, marker: PhantomData }),
            Err(e) => Err(e),
        }
    }

    /// Releases the object held by the runtime.
    pub fn remove_object(self) {
        R::remove_object(self.go_ref_id)
    }
}

/// A PLONK proof. It is released by [`PlonkProof::remove_object`].
pub struct PlonkProof<C, R> {
    go_ref_id: i64,
    marker: PhantomData<(C, R)>,
}

impl<C, R> GoInnerRef for PlonkProof<C, R> {
    fn go_inner_ref(&self) -> i64 {
        self.go_ref_id
    }

    fn from_go_inner_ref(ref_id: i64) -> Self {
        PlonkProof { go_ref_id: ref_id, marker: PhantomData }
    }
}

impl<C: CurveId, R: Object> PlonkProof<C, R> {
    /// The runtime's handle of the object.
    pub closed spec fn handle(&self) -> i64 {
        self.go_ref_id
    }

    /// The object in gnark's binary form.
    pub fn serialize(&self) -> (r: Result<Vec<u8>, Error>)
        ensures
            r matches Ok(b) ==> b@.len() > 0,
    {
        serialize_outcome(R::serialize(self.go_ref_id))
    }

    /// Writes the object with the given handle to a file.
    pub fn write_to_file(object_id: i64, path: String) -> (r: Result<(), Error>) {
        write_outcome(R::write_to_file(object_id, path))
    }

    /// Loads an object from gnark's binary form.
    pub fn deserialize(data: Vec<u8>) -> (r: Result<Self, Error>)
        ensures
            r matches Ok(o) ==> o.handle() >= 0,
    {
        match compile_outcome(R::deserialize(7, C::curve_id(), data)) {
            Ok(id) => Ok(PlonkProof { go_ref_id: id, marker: PhantomData }),
            Err(e) => Err(e),
        }
    }

    /// Loads an object from a file.
    pub fn read_from_file(path: String) -> (r: Result<Self, Error>)
        ensures
            r matches Ok(o) ==> o.handle() >= 0,
    {
        match compile_outcome(R::read_from_file(7, C::curve_id(), path)) {
            Ok(id) => Ok(PlonkProof { go_ref_id: id, marker: PhantomData }),
            Err(e) => Err(e),
        }
    }

    /// Releases the object held by the runtime.
    pub fn remove_object(self) {
        R::remove_object(self.go_ref_id)
    }
}

impl<R: Object> Groth16VerifyingKey<BN254, R> {
    /// The Solidity source of an on-chain verifier for this key.
    pub fn export_solidity(&self) -> (r: Result<String, Error>) {
        let res = R::export_solidity(self.go_ref_id, 1);
        export_outcome(&res)
    }
}

impl<R: Object> PlonkVerifyingKey<BN254, R> {
    /// The Solidity source of an on-chain verifier for this key.
    pub fn export_solidity(&self) -> (r: Result<String, Error>) {
        let res = R::export_solidity(self.go_ref_id, 2);
        export_outcome(&res)
    }
}

impl<R: Object> Groth16Proof<BN254, R> {
    /// The proof as the words that an on-chain verifier takes.
    pub fn to_solidity(&self) -> (r: Result<Vec<FieldValue>, Error>) {
        let res = R::export_solidity(self.go_ref_id, 3);
        solidity_words_outcome(&res)
    }
}

impl<R: Object> PlonkProof<BN254, R> {
    /// The proof as the words that an on-chain verifier takes.
    pub fn to_solidity(&self) -> (r: Result<Vec<FieldValue>, Error>) {
        let res = R::export_solidity(self.go_ref_id, 4);
        solidity_words_outcome(&res)
    }
}

/// A Groth16 backend over gnark, for the curve `C`. It is released by
/// [`Groth16Backend::remove_prover`].
pub struct Groth16Backend<C, R> {
    go_ref_id: u64,
    marker: PhantomData<(C, R)>,
}

impl<C: CurveId, R: Groth16Prover + Object> Groth16Backend<C, R> {
    /// Asks the runtime for a prover over the curve.
    pub fn create() -> (r: Self) {
        let prover = R::groth16_create(C::curve_id());
        Groth16Backend { go_ref_id: prover, marker: PhantomData }
    }

    /// Compiles the definition, sent in the wire format.
    pub fn compile(&self, circuit: &CircuitDefinition) -> (r: Result<CompiledCircuit<C, R>, Error>)
        ensures
            r matches Ok(cs) ==> cs.handle() >= 0,
    {
        let bytes = circuit.to_wire();
        match compile_outcome(R::groth16_compile(C::curve_id(), bytes)) {
            Ok(id) => Ok(CompiledCircuit { go_ref_id: id, marker: PhantomData }),
            Err(e) => Err(e),
        }
    }

    pub fn setup(&self, compiled_circuit: &CompiledCircuit<C, R>) -> (r: Result<
        (Groth16ProvingKey<C, R>, Groth16VerifyingKey<C, R>),
        Error,
    >)
        ensures
            r matches Ok(keys) ==> keys.0.handle() >= 0 && keys.1.handle() >= 0,
    {
        let res = R::groth16_setup(self.go_ref_id, compiled_circuit.go_ref_id);
        match setup_outcome(&res) {
            Ok((p, v)) => Ok(
                (Groth16ProvingKey { go_ref_id: p, marker: PhantomData }, Groth16VerifyingKey {
                    go_ref_id: v,
                    marker: PhantomData,
                }),
            ),
            Err(e) => Err(e),
        }
    }

    /// Proves the witness, sent in the wire format.
    pub fn prove(
        &self,
        compiled_circuit: &CompiledCircuit<C, R>,
        pk: &Groth16ProvingKey<C, R>,
        witness: &Witness,
    ) -> (r: Result<Groth16Proof<C, R>, Error>)
        ensures
            r matches Ok(p) ==> p.handle() >= 0,
    {
        let bytes = witness.to_wire();
        let res = R::groth16_prove(self.go_ref_id, compiled_circuit.go_ref_id, pk.go_ref_id, bytes);
        match compile_outcome(res) {
            Ok(id) => Ok(Groth16Proof { go_ref_id: id, marker: PhantomData }),
            Err(e) => Err(e),
        }
    }

    /// Verifies the proof against the public witness, sent in the wire format.
    pub fn verify(
        &self,
        vk: &Groth16VerifyingKey<C, R>,
        proof: &Groth16Proof<C, R>,
        public_witness: &PublicWitness,
    ) -> (r: Result<bool, Error>) {
        let bytes = public_witness.to_wire();
        verify_outcome(R::groth16_verify(self.go_ref_id, vk.go_ref_id, proof.go_ref_id, bytes))
    }

    /// Releases the prover held by the runtime.
    pub fn remove_prover(self) {
        R::groth16_remove_prover(self.go_ref_id)
    }
}

impl<C: CurveId, R: Groth16Prover + Object> Backend for Groth16Backend<C, R> {
    type CircuitConstraint = CompiledCircuit<C, R>;
    type ProvingKey = Groth16ProvingKey<C, R>;
    type VerifyingKey = Groth16VerifyingKey<C, R>;
    type Proof = Groth16Proof<C, R>;
    type Error = Error;

    fn new() -> Self {
        Self::create()
    }

    fn metadata(&self) -> MetadataInfo {
        MetadataInfo::for_curve(C::curve_type(), ProvingSystem::Groth16)
    }

    fn compile(&self, circuit: &CircuitDefinition) -> Result<CompiledCircuit<C, R>, Error> {
        Groth16Backend::compile(self, circuit)
    }

    fn setup(&self, cs: &CompiledCircuit<C, R>) -> Result<(Groth16ProvingKey<C, R>, Groth16VerifyingKey<C, R>), Error> {
        Groth16Backend::setup(self, cs)
    }

    fn prove(
        &self,
        cs: &CompiledCircuit<C, R>,
        pk: &Groth16ProvingKey<C, R>,
        witness: &Witness,
    ) -> Result<Groth16Proof<C, R>, Error> {
        Groth16Backend::prove(self, cs, pk, witness)
    }

    fn verify(
        &self,
        vk: &Groth16VerifyingKey<C, R>,
        proof: &Groth16Proof<C, R>,
        public_witness: &PublicWitness,
    ) -> Result<bool, Error> {
        Groth16Backend::verify(self, vk, proof, public_witness)
    }
}

/// A Plonk backend over gnark, for the curve `C`. It is released by
/// [`PlonkBackend::remove_prover`].
pub struct PlonkBackend<C, R> {
    go_ref_id: u64,
    marker: PhantomData<(C, R)>,
}

impl<C: CurveId, R: PlonkProver + Object> PlonkBackend<C, R> {
    /// Asks the runtime for a prover over the curve.
    pub fn create() -> (r: Self) {
        let prover = R::plonk_create(C::curve_id());
        PlonkBackend { go_ref_id: prover, marker: PhantomData }
    }

    /// Compiles the definition, sent in the wire format.
    pub fn compile(&self, circuit: &CircuitDefinition) -> (r: Result<CompiledCircuit<C, R>, Error>)
        ensures
            r matches Ok(cs) ==> cs.handle() >= 0,
    {
        let bytes = circuit.to_wire();
        match compile_outcome(R::plonk_compile(C::curve_id(), bytes)) {
            Ok(id) => Ok(CompiledCircuit { go_ref_id: id, marker: PhantomData }),
            Err(e) => Err(e),
        }
    }

    pub fn setup(&self, compiled_circuit: &CompiledCircuit<C, R>) -> (r: Result<
        (PlonkProvingKey<C, R>, PlonkVerifyingKey<C, R>),
        Error,
    >)
        ensures
            r matches Ok(keys) ==> keys.0.handle() >= 0 && keys.1.handle() >= 0,
    {
        let res = R::plonk_setup(self.go_ref_id, compiled_circuit.go_ref_id);
        match setup_outcome(&res) {
            Ok((p, v)) => Ok(
                (PlonkProvingKey { go_ref_id: p, marker: PhantomData }, PlonkVerifyingKey {
                    go_ref_id: v,
                    marker: PhantomData,
                }),
            ),
            Err(e) => Err(e),
        }
    }

    /// Proves the witness, sent in the wire format.
    pub fn prove(
        &self,
        compiled_circuit: &CompiledCircuit<C, R>,
        pk: &PlonkProvingKey<C, R>,
        witness: &Witness,
    ) -> (r: Result<PlonkProof<C, R>, Error>)
        ensures
            r matches Ok(p) ==> p.handle() >= 0,
    {
        let bytes = witness.to_wire();
        let res = R::plonk_prove(self.go_ref_id, compiled_circuit.go_ref_id, pk.go_ref_id, bytes);
        match compile_outcome(res) {
            Ok(id) => Ok(PlonkProof { go_ref_id: id, marker: PhantomData }),
            Err(e) => Err(e),
        }
    }

    /// Verifies the proof against the public witness, sent in the wire format.
    pub fn verify(
        &self,
        vk: &PlonkVerifyingKey<C, R>,
        proof: &PlonkProof<C, R>,
        public_witness: &PublicWitness,
    ) -> (r: Result<bool, Error>) {
        let bytes = public_witness.to_wire();
        verify_outcome(R::plonk_verify(self.go_ref_id, vk.go_ref_id, proof.go_ref_id, bytes))
    }

    /// Releases the prover held by the runtime.
    pub fn remove_prover(self) {
        R::plonk_remove_prover(self.go_ref_id)
    }
}

impl<C: CurveId, R: PlonkProver + Object> Backend for PlonkBackend<C, R> {
    type CircuitConstraint = CompiledCircuit<C, R>;
    type ProvingKey = PlonkProvingKey<C, R>;
    type VerifyingKey = PlonkVerifyingKey<C, R>;
    type Proof = PlonkProof<C, R>;
    type Error = Error;

    fn new() -> Self {
        Self::create()
    }

    fn metadata(&self) -> MetadataInfo {
        MetadataInfo::for_curve(C::curve_type(), ProvingSystem::Plonk)
    }

    fn compile(&self, circuit: &CircuitDefinition) -> Result<CompiledCircuit<C, R>, Error> {
        PlonkBackend::compile(self, circuit)
    }

    fn setup(&self, cs: &CompiledCircuit<C, R>) -> Result<(PlonkProvingKey<C, R>, PlonkVerifyingKey<C, R>), Error> {
        PlonkBackend::setup(self, cs)
    }

    fn prove(
        &self,
        cs: &CompiledCircuit<C, R>,
        pk: &PlonkProvingKey<C, R>,
        witness: &Witness,
    ) -> Result<PlonkProof<C, R>, Error> {
        PlonkBackend::prove(self, cs, pk, witness)
    }

    fn verify(
        &self,
        vk: &PlonkVerifyingKey<C, R>,
        proof: &PlonkProof<C, R>,
        public_witness: &PublicWitness,
    ) -> Result<bool, Error> {
        PlonkBackend::verify(self, vk, proof, public_witness)
    }
}

} // verus!
