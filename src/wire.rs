//! The wire format of definitions and witnesses: compact JSON, with arbitrary-precision
//! values written as decimal strings.
use crate::types::{ops_of, values_of, CircuitDefinition, OpCode, OpView, Operation, PublicWitness, Witness};
use crate::value::{decimal_text, decimal_value, digits_value, is_decimal_text, lemma_decimal_text, FieldValue};
use crate::variable::{vars_of, Var, VariableType};
use vstd::prelude::*;
use vstd::string::StringSliceAdditionalSpecFns;

verus! {

/// The bytes of a piece of text.
pub open spec fn text(s: &str) -> Seq<u8> {
    s.spec_bytes()
}

/// The parts, separated by commas.
pub open spec fn join(parts: Seq<Seq<u8>>) -> Seq<u8>
    decreases parts.len(),
{
    if parts.len() == 0 {
        Seq::empty()
    } else if parts.len() == 1 {
        parts[0]
    } else {
        join(parts.drop_last()) + text(",") + parts.last()
    }
}

/// A JSON array of already written elements.
pub open spec fn array(parts: Seq<Seq<u8>>) -> Seq<u8> {
    text("[") + join(parts) + text("]")
}

/// The name of an operation kind on the wire.
pub open spec fn opcode_text(op: OpCode) -> &'static str {
    match op {
        OpCode::Add => "add",
        OpCode::MulAcc => "mul_acc",
        OpCode::Neg => "neg",
        OpCode::Sub => "sub",
        OpCode::Mul => "mul",
        OpCode::DivUnchecked => "div_unchecked",
        OpCode::Div => "div",
        OpCode::Inverse => "inverse",
        OpCode::ToBinary => "to_binary",
        OpCode::FromBinary => "from_binary",
        OpCode::Xor => "xor",
        OpCode::Or => "or",
        OpCode::And => "and",
        OpCode::Select => "select",
        OpCode::Lookup2 => "lookup2",
        OpCode::IsZero => "is_zero",
        OpCode::Cmp => "cmp",
        OpCode::AssertIsEqual => "assert_is_equal",
        OpCode::AssertIsDifferent => "assert_is_different",
        OpCode::AssertIsBoolean => "assert_is_boolean",
        OpCode::AssertIsCrumb => "assert_is_crumb",
        OpCode::AssertIsLessOrEqual => "assert_is_less_or_equal",
        OpCode::Println => "println",
    }
}

/// A reference on the wire: its kind under `t`, its index (or, for a constant, its value
/// as a decimal string) under `v`.
pub open spec fn wire_var(v: Var) -> Seq<u8> {
    match v {
        Var::Public(i) => text("{\"t\":\"public\",\"v\":") + decimal_text(i as int) + text("}"),
        Var::Private(i) => text("{\"t\":\"private\",\"v\":") + decimal_text(i as int) + text("}"),
        Var::Constant(x) => text("{\"t\":\"constant\",\"v\":") + wire_value(x) + text("}"),
        Var::Local(i) => text("{\"t\":\"local\",\"v\":") + decimal_text(i as int) + text("}"),
    }
}

pub open spec fn wire_vars(vs: Seq<Var>) -> Seq<u8> {
    array(vs.map_values(|v: Var| wire_var(v)))
}

pub open spec fn wire_op(o: OpView) -> Seq<u8> {
    text("{\"op\":\"") + text(opcode_text(o.op)) + text("\",\"in\":") + wire_vars(o.inputs) + text(
        ",\"out\":",
    ) + wire_vars(o.outputs) + text("}")
}

/// A definition on the wire.
pub open spec fn wire_definition(
    private_len: nat,
    public_len: nat,
    local_len: nat,
    ops: Seq<OpView>,
) -> Seq<u8> {
    text("{\"private_len\":") + decimal_text(private_len as int) + text(",\"public_len\":")
        + decimal_text(public_len as int) + text(",\"local_len\":") + decimal_text(
        local_len as int,
    ) + text(",\"operations\":") + wire_ops(ops) + text("}")
}

/// A value on the wire: its decimal text as a JSON string.
pub open spec fn wire_value(x: int) -> Seq<u8> {
    text("\"") + decimal_text(x) + text("\"")
}

pub open spec fn wire_values(xs: Seq<int>) -> Seq<u8> {
    array(xs.map_values(|x: int| wire_value(x)))
}

/// A witness on the wire.
pub open spec fn wire_witness(public: Seq<int>, private: Seq<int>) -> Seq<u8> {
    text("{\"public\":") + wire_values(public) + text(",\"private\":") + wire_values(private)
        + text("}")
}

/// A public witness on the wire.
pub open spec fn wire_public_witness(public: Seq<int>) -> Seq<u8> {
    text("{\"public\":") + wire_values(public) + text("}")
}

proof fn lemma_join_push(parts: Seq<Seq<u8>>, p: Seq<u8>)
    ensures
        join(parts.push(p)) == if parts.len() == 0 {
            p
        } else {
            join(parts) + text(",") + p
        },
{
    assert(parts.push(p).drop_last() =~= parts);
}

/// Appends the bytes of `s`.
fn push_text(out: &mut Vec<u8>, s: &str)
    ensures
        final(out)@ == old(out)@ + text(s),
{
    let b = s.as_bytes();
    let ghost start = out@;
    let mut i: usize = 0;
    while i < b.len()
        invariant
            i <= b@.len(),
            b@ == text(s),
            out@ == start + b@.subrange(0, i as int),
        decreases b@.len() - i,
    {
        out.push(b[i]);
        i += 1;
        assert(out@ =~= start + b@.subrange(0, i as int));
    }
    assert(b@.subrange(0, i as int) =~= b@);
}

/// Appends the bytes of `b`.
fn push_all(out: &mut Vec<u8>, b: &Vec<u8>)
    ensures
        final(out)@ == old(out)@ + b@,
{
    let ghost start = out@;
    let mut i: usize = 0;
    while i < b.len()
        invariant
            i <= b@.len(),
            out@ == start + b@.subrange(0, i as int),
        decreases b@.len() - i,
    {
        out.push(b[i]);
        i += 1;
        assert(out@ =~= start + b@.subrange(0, i as int));
    }
    assert(b@.subrange(0, i as int) =~= b@);
}

/// Appends the decimal text of an index.
fn push_index(out: &mut Vec<u8>, i: u64)
    ensures
        final(out)@ == old(out)@ + decimal_text(i as int),
{
    let digits = FieldValue::from_u128(i as u128).to_decimal();
    push_all(out, &digits);
}

fn opcode_name(op: OpCode) -> (r: &'static str)
    ensures
        r == opcode_text(op),
{
    match op {
        OpCode::Add => "add",
        OpCode::MulAcc => "mul_acc",
        OpCode::Neg => "neg",
        OpCode::Sub => "sub",
        OpCode::Mul => "mul",
        OpCode::DivUnchecked => "div_unchecked",
        OpCode::Div => "div",
        OpCode::Inverse => "inverse",
        OpCode::ToBinary => "to_binary",
        OpCode::FromBinary => "from_binary",
        OpCode::Xor => "xor",
        OpCode::Or => "or",
        OpCode::And => "and",
        OpCode::Select => "select",
        OpCode::Lookup2 => "lookup2",
        OpCode::IsZero => "is_zero",
        OpCode::Cmp => "cmp",
        OpCode::AssertIsEqual => "assert_is_equal",
        OpCode::AssertIsDifferent => "assert_is_different",
        OpCode::AssertIsBoolean => "assert_is_boolean",
        OpCode::AssertIsCrumb => "assert_is_crumb",
        OpCode::AssertIsLessOrEqual => "assert_is_less_or_equal",
        OpCode::Println => "println",
    }
}

fn push_var(out: &mut Vec<u8>, v: &VariableType)
    ensures
        final(out)@ == old(out)@ + wire_var(v@),
{
    match v {
        VariableType::Public(i) => {
            push_text(out, "{\"t\":\"public\",\"v\":");
            push_index(out, *i);
            push_text(out, "}");
        },
        VariableType::Private(i) => {
            push_text(out, "{\"t\":\"private\",\"v\":");
            push_index(out, *i);
            push_text(out, "}");
        },
        VariableType::Constant(x) => {
            push_text(out, "{\"t\":\"constant\",\"v\":");
            push_text(out, "\"");
            let digits = x.to_decimal();
            push_all(out, &digits);
            push_text(out, "\"");
            push_text(out, "}");
        },
        VariableType::Local(i) => {
            push_text(out, "{\"t\":\"local\",\"v\":");
            push_index(out, *i);
            push_text(out, "}");
        },
    }
}

fn push_vars(out: &mut Vec<u8>, vs: &Vec<VariableType>)
    ensures
        final(out)@ == old(out)@ + wire_vars(vars_of(vs@)),
{
    let ghost start = out@;
    let ghost parts = vars_of(vs@).map_values(|v: Var| wire_var(v));
    push_text(out, "[");
    let mut i: usize = 0;
    while i < vs.len()
        invariant
            i <= vs@.len(),
            parts == vars_of(vs@).map_values(|v: Var| wire_var(v)),
            out@ == start + text("[") + join(parts.subrange(0, i as int)),
        decreases vs@.len() - i,
    {
        let ghost before = out@;
        if i > 0 {
            push_text(out, ",");
        }
        push_var(out, &vs[i]);
        proof {
            lemma_join_push(parts.subrange(0, i as int), parts[i as int]);
            assert(parts.subrange(0, i as int).push(parts[i as int]) =~= parts.subrange(0, i + 1));
        }
        i += 1;
    }
    push_text(out, "]");
    assert(parts.subrange(0, i as int) =~= parts);
}

fn push_op(out: &mut Vec<u8>, o: &Operation)
    ensures
        final(out)@ == old(out)@ + wire_op(o@),
{
    push_text(out, "{\"op\":\"");
    push_text(out, opcode_name(o.op));
    push_text(out, "\",\"in\":");
    push_vars(out, &o.inputs);
    push_text(out, ",\"out\":");
    push_vars(out, &o.outputs);
    push_text(out, "}");
}

fn push_values(out: &mut Vec<u8>, xs: &Vec<FieldValue>)
    ensures
        final(out)@ == old(out)@ + wire_values(values_of(xs@)),
{
    let ghost start = out@;
    let ghost parts = values_of(xs@).map_values(|x: int| wire_value(x));
    push_text(out, "[");
    let mut i: usize = 0;
    while i < xs.len()
        invariant
            i <= xs@.len(),
            parts == values_of(xs@).map_values(|x: int| wire_value(x)),
            out@ == start + text("[") + join(parts.subrange(0, i as int)),
        decreases xs@.len() - i,
    {
        if i > 0 {
            push_text(out, ",");
        }
        push_text(out, "\"");
        let digits = xs[i].to_decimal();
        push_all(out, &digits);
        push_text(out, "\"");
        proof {
            lemma_join_push(parts.subrange(0, i as int), parts[i as int]);
            assert(parts.subrange(0, i as int).push(parts[i as int]) =~= parts.subrange(0, i + 1));
        }
        i += 1;
    }
    push_text(out, "]");
    assert(parts.subrange(0, i as int) =~= parts);
}

/// `t` stands in `b` at `pos`.
pub open spec fn starts_at(b: Seq<u8>, pos: int, t: Seq<u8>) -> bool {
    0 <= pos && pos + t.len() <= b.len() && b.subrange(pos, pos + t.len()) == t
}

/// The bytes of the punctuation that the decoder reads.
proof fn lemma_punctuation()
    ensures
        text("[") == seq![91u8],
        text("]") == seq![93u8],
        text(",") == seq![44u8],
        text("\"") == seq![34u8],
{
    reveal_strlit("[");
    reveal_strlit("]");
    reveal_strlit(",");
    reveal_strlit("\"");
    vstd::string::is_ascii_spec_bytes("[");
    vstd::string::is_ascii_spec_bytes("]");
    vstd::string::is_ascii_spec_bytes(",");
    vstd::string::is_ascii_spec_bytes("\"");
    assert(text("[") =~= seq![91u8]);
    assert(text("]") =~= seq![93u8]);
    assert(text(",") =~= seq![44u8]);
    assert(text("\"") =~= seq![34u8]);
}

/// Whether `bytes` holds the text `lit` at `pos`.
fn has_text(bytes: &[u8], pos: usize, lit: &str) -> (r: bool)
    ensures
        r == starts_at(bytes@, pos as int, text(lit)),
{
    let t = lit.as_bytes();
    let n = bytes.len();
    if t.len() > n || pos > n - t.len() {
        return false;
    }
    let mut i: usize = 0;
    while i < t.len()
        invariant
            i <= t@.len(),
            n == bytes@.len(),
            t@ == text(lit),
            pos + t@.len() <= bytes@.len(),
            forall|j: int| 0 <= j < i ==> bytes@[pos + j] == t@[j],
        decreases t@.len() - i,
    {
        if bytes[pos + i] != t[i] {
            proof {
                assert(bytes@.subrange(pos as int, pos + t@.len())[i as int] != t@[i as int]);
            }
            return false;
        }
        i += 1;
    }
    assert(bytes@.subrange(pos as int, pos + t@.len()) =~= t@);
    true
}

/// The parts before the `m`-th, joined, begin the joined whole.
proof fn lemma_join_prefix(parts: Seq<Seq<u8>>, m: int)
    requires
        0 <= m <= parts.len(),
    ensures
        join(parts.subrange(0, m)).len() <= join(parts).len(),
        join(parts).subrange(0, join(parts.subrange(0, m)).len() as int) == join(
            parts.subrange(0, m),
        ),
    decreases parts.len() - m,
{
    if m < parts.len() {
        lemma_join_prefix(parts, m + 1);
        lemma_join_push(parts.subrange(0, m), parts[m]);
        assert(parts.subrange(0, m).push(parts[m]) =~= parts.subrange(0, m + 1));
        let a = join(parts.subrange(0, m));
        let b = join(parts.subrange(0, m + 1));
        let j = join(parts);
        assert(b.subrange(0, a.len() as int) =~= a);
        assert(j.subrange(0, a.len() as int) =~= b.subrange(0, a.len() as int));
    } else {
        assert(parts.subrange(0, m) =~= parts);
        assert(join(parts).subrange(0, join(parts).len() as int) =~= join(parts));
    }
}

/// The comma that comes before the `k`-th part.
pub open spec fn sep_len(k: int) -> int {
    if k == 0 {
        0
    } else {
        1
    }
}

/// Where an array stands at `pos`, its `k`-th element stands where the earlier ones and
/// their commas end, and it is followed by a comma, or by the closing bracket if it is the
/// last.
proof fn lemma_list_item(b: Seq<u8>, pos: int, parts: Seq<Seq<u8>>, k: int)
    requires
        starts_at(b, pos, array(parts)),
        0 <= k < parts.len(),
    ensures
        ({
            let at = pos + 1 + join(parts.subrange(0, k)).len() + sep_len(k);
            let next = at + parts[k].len();
            &&& starts_at(b, at, parts[k])
            &&& next < b.len()
            &&& next == pos + 1 + join(parts.subrange(0, k + 1)).len()
            &&& (k + 1 < parts.len() ==> b[next] == 44u8)
            &&& (k + 1 == parts.len() ==> b[next] == 93u8 && next + 1 == pos + array(parts).len())
        }),
{
    lemma_punctuation();
    let w = array(parts);
    let j = join(parts);
    let jk = join(parts.subrange(0, k));
    let jk1 = join(parts.subrange(0, k + 1));
    lemma_join_push(parts.subrange(0, k), parts[k]);
    assert(parts.subrange(0, k).push(parts[k]) =~= parts.subrange(0, k + 1));
    lemma_join_prefix(parts, k + 1);
    let at = pos + 1 + jk.len() + sep_len(k);
    let item = parts[k];
    assert(w == seq![91u8] + j + seq![93u8]);
    assert(jk1.len() == jk.len() + sep_len(k) + item.len());
    assert forall|i: int| 0 <= i < item.len() implies b.subrange(at, at + item.len())[i] == item[i] by {
        assert(b[at + i] == b.subrange(pos, pos + w.len())[at + i - pos]);
        assert(w[at + i - pos] == j[jk.len() + sep_len(k) + i]);
        assert(j[jk.len() + sep_len(k) + i] == j.subrange(0, jk1.len() as int)[jk.len() + sep_len(k) + i]);
        assert(jk1[jk.len() + sep_len(k) + i] == item[i]);
    }
    assert(b.subrange(at, at + item.len()) =~= item);
    let next = at + item.len();
    if k + 1 < parts.len() {
        lemma_join_push(parts.subrange(0, k + 1), parts[k + 1]);
        assert(parts.subrange(0, k + 1).push(parts[k + 1]) =~= parts.subrange(0, k + 2));
        lemma_join_prefix(parts, k + 2);
        let jk2 = join(parts.subrange(0, k + 2));
        assert(jk2[jk1.len() as int] == 44u8);
        assert(j[jk1.len() as int] == j.subrange(0, jk2.len() as int)[jk1.len() as int]);
        assert(b[next] == b.subrange(pos, pos + w.len())[next - pos]);
    } else {
        assert(parts.subrange(0, k + 1) =~= parts);
        assert(b[next] == b.subrange(pos, pos + w.len())[next - pos]);
    }
}

/// The same, for an array of values.
proof fn lemma_values_item(b: Seq<u8>, pos: int, xs: Seq<int>, k: int)
    requires
        starts_at(b, pos, wire_values(xs)),
        0 <= k < xs.len(),
    ensures
        ({
            let parts = xs.map_values(|x: int| wire_value(x));
            let at = pos + 1 + join(parts.subrange(0, k)).len() + sep_len(k);
            let next = at + wire_value(xs[k]).len();
            &&& starts_at(b, at, wire_value(xs[k]))
            &&& next < b.len()
            &&& next == pos + 1 + join(parts.subrange(0, k + 1)).len()
            &&& (k + 1 < xs.len() ==> b[next] == 44u8)
            &&& (k + 1 == xs.len() ==> b[next] == 93u8 && next + 1 == pos + wire_values(xs).len())
        }),
{
    lemma_list_item(b, pos, xs.map_values(|x: int| wire_value(x)), k);
}

/// The bytes of the texts that open a reference on the wire.
proof fn lemma_var_prefixes()
    ensures
        text("{\"t\":\"public\",\"v\":") == seq![123u8, 34u8, 116u8, 34u8, 58u8, 34u8, 112u8, 117u8, 98u8, 108u8, 105u8, 99u8, 34u8, 44u8, 34u8, 118u8, 34u8, 58u8],
        text("{\"t\":\"private\",\"v\":") == seq![123u8, 34u8, 116u8, 34u8, 58u8, 34u8, 112u8, 114u8, 105u8, 118u8, 97u8, 116u8, 101u8, 34u8, 44u8, 34u8, 118u8, 34u8, 58u8],
        text("{\"t\":\"constant\",\"v\":") == seq![123u8, 34u8, 116u8, 34u8, 58u8, 34u8, 99u8, 111u8, 110u8, 115u8, 116u8, 97u8, 110u8, 116u8, 34u8, 44u8, 34u8, 118u8, 34u8, 58u8],
        text("{\"t\":\"local\",\"v\":") == seq![123u8, 34u8, 116u8, 34u8, 58u8, 34u8, 108u8, 111u8, 99u8, 97u8, 108u8, 34u8, 44u8, 34u8, 118u8, 34u8, 58u8],
        text("}") == seq![125u8],
{
    reveal_strlit("{\"t\":\"public\",\"v\":");
    vstd::string::is_ascii_spec_bytes("{\"t\":\"public\",\"v\":");
    assert(text("{\"t\":\"public\",\"v\":") =~= seq![123u8, 34u8, 116u8, 34u8, 58u8, 34u8, 112u8, 117u8, 98u8, 108u8, 105u8, 99u8, 34u8, 44u8, 34u8, 118u8, 34u8, 58u8]);
    reveal_strlit("{\"t\":\"private\",\"v\":");
    vstd::string::is_ascii_spec_bytes("{\"t\":\"private\",\"v\":");
    assert(text("{\"t\":\"private\",\"v\":") =~= seq![123u8, 34u8, 116u8, 34u8, 58u8, 34u8, 112u8, 114u8, 105u8, 118u8, 97u8, 116u8, 101u8, 34u8, 44u8, 34u8, 118u8, 34u8, 58u8]);
    reveal_strlit("{\"t\":\"constant\",\"v\":");
    vstd::string::is_ascii_spec_bytes("{\"t\":\"constant\",\"v\":");
    assert(text("{\"t\":\"constant\",\"v\":") =~= seq![123u8, 34u8, 116u8, 34u8, 58u8, 34u8, 99u8, 111u8, 110u8, 115u8, 116u8, 97u8, 110u8, 116u8, 34u8, 44u8, 34u8, 118u8, 34u8, 58u8]);
    reveal_strlit("{\"t\":\"local\",\"v\":");
    vstd::string::is_ascii_spec_bytes("{\"t\":\"local\",\"v\":");
    assert(text("{\"t\":\"local\",\"v\":") =~= seq![123u8, 34u8, 116u8, 34u8, 58u8, 34u8, 108u8, 111u8, 99u8, 97u8, 108u8, 34u8, 44u8, 34u8, 118u8, 34u8, 58u8]);
    reveal_strlit("}");
    vstd::string::is_ascii_spec_bytes("}");
    assert(text("}") =~= seq![125u8]);
}

/// Digit runs read no larger than the whole run they begin.
proof fn lemma_digits_prefix(s: Seq<u8>, m: int)
    requires
        0 <= m <= s.len(),
        crate::value::all_digits(s),
    ensures
        0 <= digits_value(s.subrange(0, m)) <= digits_value(s),
    decreases s.len() - m,
{
    if m < s.len() {
        lemma_digits_prefix(s, m + 1);
        let a = s.subrange(0, m);
        let b = s.subrange(0, m + 1);
        assert(b.drop_last() =~= a);
        assert(crate::value::is_digit(s[m]));
    } else {
        assert(s.subrange(0, m) =~= s);
        lemma_digits_nonneg(s);
    }
}

proof fn lemma_digits_nonneg(s: Seq<u8>)
    requires
        crate::value::all_digits(s),
    ensures
        digits_value(s) >= 0,
    decreases s.len(),
{
    if s.len() > 0 {
        assert(crate::value::is_digit(s.last()));
        lemma_digits_nonneg(s.drop_last());
    }
}

/// Reads a run of decimal digits at `pos` as an index; returns it and the position after
/// the run.
fn parse_index(bytes: &[u8], pos: usize) -> (r: Option<(u64, usize)>)
    ensures
        forall|i: u64|
            #[trigger] starts_at(bytes@, pos as int, decimal_text(i as int)) && pos + decimal_text(
                i as int,
            ).len() < bytes@.len() && !crate::value::is_digit(
                bytes@[pos + decimal_text(i as int).len()],
            ) ==> (r matches Some((v, p)) && v == i && p == pos + decimal_text(i as int).len()),
        r matches Some((v, p)) ==> pos < p <= bytes@.len(),
{
    let n = bytes.len();
    if pos > n {
        return None;
    }
    let mut q: usize = pos;
    let mut acc: u64 = 0;
    assert(bytes@.subrange(pos as int, pos as int) =~= Seq::<u8>::empty());
    while q < n && bytes[q] >= 48u8 && bytes[q] <= 57u8
        invariant
            pos <= q <= n,
            n == bytes@.len(),
            acc == digits_value(bytes@.subrange(pos as int, q as int)),
            forall|j: int| pos <= j < q ==> crate::value::is_digit(#[trigger] bytes@[j]),
            forall|i: u64|
                #[trigger] starts_at(bytes@, pos as int, decimal_text(i as int)) && pos
                    + decimal_text(i as int).len() < bytes@.len() && !crate::value::is_digit(
                    bytes@[pos + decimal_text(i as int).len()],
                ) ==> q <= pos + decimal_text(i as int).len(),
        decreases n - q,
    {
        let d = (bytes[q] - 48u8) as u64;
        let ghost prefix = bytes@.subrange(pos as int, q as int);
        proof {
            assert(bytes@.subrange(pos as int, q + 1).drop_last() =~= prefix);
        }
        if acc > (u64::MAX - d) / 10 {
            proof {
                assert forall|i: u64| #[trigger] starts_at(bytes@, pos as int, decimal_text(i as int)) && pos
                    + decimal_text(i as int).len() < bytes@.len() && !crate::value::is_digit(
                    bytes@[pos + decimal_text(i as int).len()],
                ) implies false by {
                    let t = decimal_text(i as int);
                    crate::value::lemma_nat_decimal(i as nat);
                    assert(q < pos + t.len()) by {
                        if q == pos + t.len() {
                            assert(crate::value::is_digit(bytes@[q as int]));
                        }
                    }
                    assert(bytes@.subrange(pos as int, q + 1) =~= t.subrange(0, q + 1 - pos)) by {
                        assert forall|j: int| 0 <= j < q + 1 - pos implies #[trigger] bytes@.subrange(pos as int, q + 1)[j] == t.subrange(0, q + 1 - pos)[j] by {
                            assert(bytes@[pos + j] == bytes@.subrange(pos as int, pos + t.len())[j]);
                        }
                    }
                    lemma_digits_prefix(t, q + 1 - pos);
                    assert(digits_value(t) == i);
                    assert(acc * 10 + d > u64::MAX) by (nonlinear_arith)
                        requires
                            acc > (u64::MAX - d) / 10,
                            d <= 9,
                    ;
                }
            }
            return None;
        }
        proof {
            assert(acc * 10 + d <= u64::MAX) by (nonlinear_arith)
                requires
                    acc <= (u64::MAX - d) / 10,
                    d <= 9,
            ;
        }
        acc = acc * 10 + d;
        q += 1;
        proof {
            assert forall|i: u64| #[trigger] starts_at(bytes@, pos as int, decimal_text(i as int)) && pos
                + decimal_text(i as int).len() < bytes@.len() && !crate::value::is_digit(
                bytes@[pos + decimal_text(i as int).len()],
            ) implies q <= pos + decimal_text(i as int).len() by {
                let t = decimal_text(i as int);
                if q > pos + t.len() {
                    assert(crate::value::is_digit(bytes@[q - 1]));
                }
            }
        }
    }
    if q == pos {
        proof {
            assert forall|i: u64| #[trigger] starts_at(bytes@, pos as int, decimal_text(i as int)) && pos
                + decimal_text(i as int).len() < bytes@.len() && !crate::value::is_digit(
                bytes@[pos + decimal_text(i as int).len()],
            ) implies false by {
                let t = decimal_text(i as int);
                crate::value::lemma_nat_decimal(i as nat);
                assert(bytes@[pos as int] == bytes@.subrange(pos as int, pos + t.len())[0]);
                assert(crate::value::is_digit(t[0]));
            }
        }
        return None;
    }
    proof {
        assert forall|i: u64| #[trigger] starts_at(bytes@, pos as int, decimal_text(i as int)) && pos
            + decimal_text(i as int).len() < bytes@.len() && !crate::value::is_digit(
            bytes@[pos + decimal_text(i as int).len()],
        ) implies q == pos + decimal_text(i as int).len() && acc == i by {
            let t = decimal_text(i as int);
            crate::value::lemma_nat_decimal(i as nat);
            if q < pos + t.len() {
                assert(bytes@[q as int] == bytes@.subrange(pos as int, pos + t.len())[q - pos]);
                assert(crate::value::is_digit(t[q - pos]));
            }
            assert(bytes@.subrange(pos as int, q as int) =~= t);
        }
    }
    Some((acc, q))
}

/// Reads a value written as a decimal string at `pos`; returns it and the position after it.
fn parse_value(bytes: &[u8], pos: usize) -> (r: Option<(FieldValue, usize)>)
    ensures
        forall|x: int|
            #[trigger] starts_at(bytes@, pos as int, wire_value(x)) ==> (r matches Some((v, p)) && v@
                == x && p == pos + wire_value(x).len()),
        r matches Some((v, p)) ==> pos < p <= bytes@.len(),
{
    proof {
        lemma_punctuation();
    }
    let n = bytes.len();
    if pos >= n || bytes[pos] != 34u8 {
        proof {
            assert forall|x: int| #[trigger] starts_at(bytes@, pos as int, wire_value(x)) implies false by {
                assert(bytes@.subrange(pos as int, pos + wire_value(x).len())[0] == wire_value(x)[0]);
            }
        }
        return None;
    }
    let mut q: usize = pos + 1;
    let mut digits: Vec<u8> = Vec::new();
    while q < n && bytes[q] != 34u8
        invariant
            pos < q <= n,
            n == bytes@.len(),
            digits@ == bytes@.subrange(pos + 1, q as int),
            forall|j: int| pos < j < q ==> bytes@[j] != 34u8,
        decreases n - q,
    {
        digits.push(bytes[q]);
        q += 1;
        assert(digits@ =~= bytes@.subrange(pos + 1, q as int));
    }
    proof {
        assert forall|x: int| #[trigger] starts_at(bytes@, pos as int, wire_value(x)) implies q == pos
            + 1 + decimal_text(x).len() && q < n && digits@ == decimal_text(x) && is_decimal_text(digits@)
            && decimal_value(digits@) == x by {
            lemma_decimal_text(x);
            let d = decimal_text(x);
            let w = wire_value(x);
            assert(w == seq![34u8] + d + seq![34u8]);
            let k = pos + 1 + d.len();
            assert(bytes@[k] == w[d.len() + 1int]);
            if q < k {
                assert(bytes@[q as int] == w[q - pos]);
                assert(w[q - pos] == d[q - pos - 1]);
            }
            assert(digits@ =~= d) by {
                assert forall|j: int| 0 <= j < d.len() implies digits@[j] == d[j] by {
                    assert(bytes@[pos + 1 + j] == w[j + 1]);
                }
            }
        }
    }
    if q >= n {
        return None;
    }
    match FieldValue::parse_decimal(digits.as_slice()) {
        Some(v) => Some((v, q + 1)),
        None => None,
    }
}

/// A text that stands at `pos` rules out another that differs from it at index `k`.
proof fn lemma_differs(b: Seq<u8>, pos: int, t1: Seq<u8>, t2: Seq<u8>, k: int)
    requires
        starts_at(b, pos, t1),
        0 <= k < t1.len(),
        k < t2.len(),
        t1[k] != t2[k],
    ensures
        !starts_at(b, pos, t2),
{
    assert(b[pos + k] == b.subrange(pos, pos + t1.len())[k]);
    if starts_at(b, pos, t2) {
        assert(b[pos + k] == b.subrange(pos, pos + t2.len())[k]);
    }
}

/// Where `pre + rest` stands at `pos`, `pre` stands there and `rest` right after it.
proof fn lemma_split(b: Seq<u8>, pos: int, pre: Seq<u8>, rest: Seq<u8>)
    requires
        starts_at(b, pos, pre + rest),
    ensures
        starts_at(b, pos, pre),
        starts_at(b, pos + pre.len(), rest),
{
    let w = pre + rest;
    assert(b.subrange(pos, pos + pre.len()) =~= pre) by {
        assert forall|j: int| 0 <= j < pre.len() implies #[trigger] b.subrange(pos, pos + pre.len())[j]
            == pre[j] by {
            assert(b[pos + j] == b.subrange(pos, pos + w.len())[j]);
        }
    }
    assert(b.subrange(pos + pre.len(), pos + pre.len() + rest.len()) =~= rest) by {
        assert forall|j: int| 0 <= j < rest.len() implies #[trigger] b.subrange(
            pos + pre.len(),
            pos + pre.len() + rest.len(),
        )[j] == rest[j] by {
            assert(b[pos + pre.len() + j] == b.subrange(pos, pos + w.len())[pre.len() + j]);
        }
    }
}

/// Reads a reference at `pos`; returns it and the position after it.
fn parse_var(bytes: &[u8], pos: usize) -> (r: Option<(VariableType, usize)>)
    ensures
        forall|v: VariableType|
            #[trigger] starts_at(bytes@, pos as int, wire_var(v@)) ==> (r matches Some((w, p)) && w@
                == v@ && p == pos + wire_var(v@).len()),
        r matches Some((w, p)) ==> pos < p <= bytes@.len(),
{
    let n = bytes.len();
    let p_public = "{\"t\":\"public\",\"v\":";
    let p_private = "{\"t\":\"private\",\"v\":";
    let p_constant = "{\"t\":\"constant\",\"v\":";
    let p_local = "{\"t\":\"local\",\"v\":";
    proof {
        lemma_var_prefixes();
        assert forall|v: VariableType| #[trigger] starts_at(bytes@, pos as int, wire_var(v@)) implies ({
            let b = bytes@;
            let ps = pos as int;
            match v {
                VariableType::Public(i) => starts_at(b, ps, text(p_public)) && starts_at(
                    b,
                    ps + text(p_public).len(),
                    decimal_text(i as int),
                ) && !crate::value::is_digit(b[ps + text(p_public).len() + decimal_text(i as int).len()])
                    && ps + text(p_public).len() + decimal_text(i as int).len() < b.len()
                    && starts_at(b, ps + text(p_public).len() + decimal_text(i as int).len(), text("}")),
                VariableType::Private(i) => !starts_at(b, ps, text(p_public)) && starts_at(
                    b,
                    ps,
                    text(p_private),
                ) && starts_at(b, ps + text(p_private).len(), decimal_text(i as int))
                    && !crate::value::is_digit(b[ps + text(p_private).len() + decimal_text(i as int).len()])
                    && ps + text(p_private).len() + decimal_text(i as int).len() < b.len()
                    && starts_at(b, ps + text(p_private).len() + decimal_text(i as int).len(), text("}")),
                VariableType::Constant(x) => !starts_at(b, ps, text(p_public)) && !starts_at(
                    b,
                    ps,
                    text(p_private),
                ) && starts_at(b, ps, text(p_constant)) && starts_at(
                    b,
                    ps + text(p_constant).len(),
                    wire_value(x@),
                ) && starts_at(b, ps + text(p_constant).len() + wire_value(x@).len(), text("}")),
                VariableType::Local(i) => !starts_at(b, ps, text(p_public)) && !starts_at(
                    b,
                    ps,
                    text(p_private),
                ) && !starts_at(b, ps, text(p_constant)) && starts_at(b, ps, text(p_local))
                    && starts_at(b, ps + text(p_local).len(), decimal_text(i as int))
                    && !crate::value::is_digit(b[ps + text(p_local).len() + decimal_text(i as int).len()])
                    && ps + text(p_local).len() + decimal_text(i as int).len() < b.len()
                    && starts_at(b, ps + text(p_local).len() + decimal_text(i as int).len(), text("}")),
            }
        }) by {
            let b = bytes@;
            let ps = pos as int;
            let close = text("}");
            match v {
                VariableType::Public(i) => {
                    let pre = text(p_public);
                    let d = decimal_text(i as int);
                    assert(wire_var(v@) == pre + d + close);
                    lemma_split(b, ps, pre + d, close);
                    lemma_split(b, ps, pre, d);
                    assert(b[ps + pre.len() + d.len()] == b.subrange(ps + pre.len() + d.len(), ps + pre.len() + d.len() + 1)[0]);
                },
                VariableType::Private(i) => {
                    let pre = text(p_private);
                    let d = decimal_text(i as int);
                    assert(wire_var(v@) == pre + d + close);
                    lemma_split(b, ps, pre + d, close);
                    lemma_split(b, ps, pre, d);
                    lemma_differs(b, ps, pre, text(p_public), 7);
                    assert(b[ps + pre.len() + d.len()] == b.subrange(ps + pre.len() + d.len(), ps + pre.len() + d.len() + 1)[0]);
                },
                VariableType::Constant(x) => {
                    let pre = text(p_constant);
                    let w = wire_value(x@);
                    assert(wire_var(v@) == pre + w + close);
                    lemma_split(b, ps, pre + w, close);
                    lemma_split(b, ps, pre, w);
                    lemma_differs(b, ps, pre, text(p_public), 6);
                    lemma_differs(b, ps, pre, text(p_private), 6);
                },
                VariableType::Local(i) => {
                    let pre = text(p_local);
                    let d = decimal_text(i as int);
                    assert(wire_var(v@) == pre + d + close);
                    lemma_split(b, ps, pre + d, close);
                    lemma_split(b, ps, pre, d);
                    lemma_differs(b, ps, pre, text(p_public), 6);
                    lemma_differs(b, ps, pre, text(p_private), 6);
                    lemma_differs(b, ps, pre, text(p_constant), 6);
                    assert(b[ps + pre.len() + d.len()] == b.subrange(ps + pre.len() + d.len(), ps + pre.len() + d.len() + 1)[0]);
                },
            }
        }
    }
    if has_text(bytes, pos, p_public) {
        let at = pos + p_public.as_bytes().len();
        return match parse_index(bytes, at) {
            Some((i, p)) => if has_text(bytes, p, "}") {
                Some((VariableType::Public(i), p + 1))
            } else {
                None
            },
            None => None,
        };
    }
    if has_text(bytes, pos, p_private) {
        let at = pos + p_private.as_bytes().len();
        return match parse_index(bytes, at) {
            Some((i, p)) => if has_text(bytes, p, "}") {
                Some((VariableType::Private(i), p + 1))
            } else {
                None
            },
            None => None,
        };
    }
    if has_text(bytes, pos, p_constant) {
        let at = pos + p_constant.as_bytes().len();
        return match parse_value(bytes, at) {
            Some((x, p)) => if has_text(bytes, p, "}") {
                Some((VariableType::Constant(x), p + 1))
            } else {
                None
            },
            None => None,
        };
    }
    if has_text(bytes, pos, p_local) {
        let at = pos + p_local.as_bytes().len();
        return match parse_index(bytes, at) {
            Some((i, p)) => if has_text(bytes, p, "}") {
                Some((VariableType::Local(i), p + 1))
            } else {
                None
            },
            None => None,
        };
    }
    None
}

/// The first byte of a reference on the wire is an opening brace.
proof fn lemma_var_first_byte(v: Var)
    ensures
        wire_var(v).len() > 0,
        wire_var(v)[0] == 123u8,
{
    lemma_var_prefixes();
}

/// Reads an array of references at `pos`; returns them and the position after the array.
fn parse_vars(bytes: &[u8], pos: usize) -> (r: Option<(Vec<VariableType>, usize)>)
    ensures
        forall|vs: Seq<VariableType>|
            #[trigger] starts_at(bytes@, pos as int, wire_vars(vars_of(vs))) ==> (r matches Some((
                w,
                p,
            )) && vars_of(w@) == vars_of(vs) && p == pos + wire_vars(vars_of(vs)).len()),
        r matches Some((w, p)) ==> pos < p <= bytes@.len(),
{
    proof {
        lemma_punctuation();
    }
    let n = bytes.len();
    if !has_text(bytes, pos, "[") {
        proof {
            assert forall|vs: Seq<VariableType>| #[trigger] starts_at(bytes@, pos as int, wire_vars(vars_of(vs))) implies false by {
                let w = wire_vars(vars_of(vs));
                assert(bytes@.subrange(pos as int, pos + w.len())[0] == w[0]);
                assert(bytes@.subrange(pos as int, pos + 1) =~= seq![bytes@[pos as int]]);
            }
        }
        return None;
    }
    let mut out: Vec<VariableType> = Vec::new();
    let mut at: usize = pos + 1;
    if has_text(bytes, at, "]") {
        proof {
            assert forall|vs: Seq<VariableType>| #[trigger] starts_at(bytes@, pos as int, wire_vars(vars_of(vs))) implies (
            vars_of(out@) == vars_of(vs) && at + 1 == pos + wire_vars(vars_of(vs)).len()) by {
                let parts = vars_of(vs).map_values(|v: Var| wire_var(v));
                if vs.len() > 0 {
                    lemma_list_item(bytes@, pos as int, parts, 0);
                    assert(parts.subrange(0, 0) =~= Seq::<Seq<u8>>::empty());
                    lemma_var_first_byte(vars_of(vs)[0]);
                    assert(bytes@.subrange(at as int, at + 1)[0] == bytes@[at as int]);
                    assert(bytes@[at as int] == bytes@.subrange(at as int, at + parts[0].len())[0]);
                }
                assert(vars_of(out@) =~= vars_of(vs));
            }
        }
        return Some((out, at + 1));
    }
    let ghost at0 = at;
    proof {
        assert forall|vs: Seq<VariableType>| #[trigger] starts_at(bytes@, pos as int, wire_vars(vars_of(vs))) implies vs.len() > 0 by {
            if vs.len() == 0 {
                assert(wire_vars(vars_of(vs)) =~= seq![91u8, 93u8]);
                assert(bytes@.subrange(at as int, at + 1) =~= seq![bytes@[at as int]]);
                assert(bytes@[at as int] == bytes@.subrange(pos as int, pos + 2)[1]);
            }
        }
        assert(vars_of(out@) =~= Seq::<Var>::empty());
    }
    loop
        invariant
            n == bytes@.len(),
            pos < at <= n,
            at0 == pos + 1,
            forall|vs: Seq<VariableType>| #[trigger] starts_at(bytes@, pos as int, wire_vars(vars_of(vs))) ==> {
                let parts = vars_of(vs).map_values(|v: Var| wire_var(v));
                &&& out@.len() < vs.len()
                &&& vars_of(out@) == vars_of(vs).subrange(0, out@.len() as int)
                &&& at == at0 + join(parts.subrange(0, out@.len() as int)).len() + sep_len(out@.len() as int)
            },
        decreases n - at,
    {
        let ghost k = out@.len();
        let (v, next) = match parse_var(bytes, at) {
            Some(pair) => pair,
            None => {
                proof {
                    assert forall|vs: Seq<VariableType>| #[trigger] starts_at(bytes@, pos as int, wire_vars(vars_of(vs))) implies false by {
                        let parts = vars_of(vs).map_values(|v: Var| wire_var(v));
                        lemma_list_item(bytes@, pos as int, parts, k as int);
                        assert(starts_at(bytes@, at as int, wire_var(vs[k as int]@)));
                    }
                }
                return None;
            },
        };
        proof {
            assert forall|vs: Seq<VariableType>| #[trigger] starts_at(bytes@, pos as int, wire_vars(vars_of(vs))) implies v@ == vs[k as int]@ && next == at + wire_var(vs[k as int]@).len() by {
                let parts = vars_of(vs).map_values(|v: Var| wire_var(v));
                lemma_list_item(bytes@, pos as int, parts, k as int);
                assert(starts_at(bytes@, at as int, wire_var(vs[k as int]@)));
            }
        }
        let ghost before = out@;
        out.push(v);
        proof {
            assert(vars_of(out@) =~= vars_of(before).push(v@));
        }
        if next < n && bytes[next] == 44u8 {
            at = next + 1;
            proof {
                assert forall|vs: Seq<VariableType>| #[trigger] starts_at(bytes@, pos as int, wire_vars(vars_of(vs))) implies ({
                    let parts = vars_of(vs).map_values(|v: Var| wire_var(v));
                    &&& out@.len() < vs.len()
                    &&& vars_of(out@) == vars_of(vs).subrange(0, out@.len() as int)
                    &&& at == at0 + join(parts.subrange(0, out@.len() as int)).len() + sep_len(out@.len() as int)
                }) by {
                    let parts = vars_of(vs).map_values(|v: Var| wire_var(v));
                    lemma_list_item(bytes@, pos as int, parts, k as int);
                    assert(starts_at(bytes@, at0 + join(parts.subrange(0, k as int)).len() + sep_len(k as int), wire_var(vs[k as int]@)));
                    assert(vars_of(vs).subrange(0, k + 1int) =~= vars_of(vs).subrange(0, k as int).push(vs[k as int]@));
                }
            }
        } else if next < n && bytes[next] == 93u8 {
            proof {
                assert forall|vs: Seq<VariableType>| #[trigger] starts_at(bytes@, pos as int, wire_vars(vars_of(vs))) implies (
                vars_of(out@) == vars_of(vs) && next + 1 == pos + wire_vars(vars_of(vs)).len()) by {
                    let parts = vars_of(vs).map_values(|v: Var| wire_var(v));
                    lemma_list_item(bytes@, pos as int, parts, k as int);
                    assert(vars_of(vs).subrange(0, k + 1int) =~= vars_of(vs).subrange(0, k as int).push(vs[k as int]@));
                    assert(vars_of(vs).subrange(0, k + 1int) =~= vars_of(vs));
                }
            }
            return Some((out, next + 1));
        } else {
            proof {
                assert forall|vs: Seq<VariableType>| #[trigger] starts_at(bytes@, pos as int, wire_vars(vars_of(vs))) implies false by {
                    let parts = vars_of(vs).map_values(|v: Var| wire_var(v));
                    lemma_list_item(bytes@, pos as int, parts, k as int);
                }
            }
            return None;
        }
    }
}

/// The bytes of the operation names: their lengths and the bytes that tell them apart.
proof fn lemma_opcode_names()
    ensures
        text(opcode_text(OpCode::Add)).len() == 3,
        text(opcode_text(OpCode::Add))[0] == 97u8,
        text(opcode_text(OpCode::Add))[1] == 100u8,
        text(opcode_text(OpCode::MulAcc)).len() == 7,
        text(opcode_text(OpCode::MulAcc))[0] == 109u8,
        text(opcode_text(OpCode::MulAcc))[1] == 117u8,
        text(opcode_text(OpCode::Neg)).len() == 3,
        text(opcode_text(OpCode::Neg))[0] == 110u8,
        text(opcode_text(OpCode::Neg))[1] == 101u8,
        text(opcode_text(OpCode::Sub)).len() == 3,
        text(opcode_text(OpCode::Sub))[0] == 115u8,
        text(opcode_text(OpCode::Sub))[1] == 117u8,
        text(opcode_text(OpCode::Mul)).len() == 3,
        text(opcode_text(OpCode::Mul))[0] == 109u8,
        text(opcode_text(OpCode::Mul))[1] == 117u8,
        text(opcode_text(OpCode::DivUnchecked)).len() == 13,
        text(opcode_text(OpCode::DivUnchecked))[0] == 100u8,
        text(opcode_text(OpCode::DivUnchecked))[1] == 105u8,
        text(opcode_text(OpCode::DivUnchecked))[10] == 107u8,
        text(opcode_text(OpCode::Div)).len() == 3,
        text(opcode_text(OpCode::Div))[0] == 100u8,
        text(opcode_text(OpCode::Div))[1] == 105u8,
        text(opcode_text(OpCode::Inverse)).len() == 7,
        text(opcode_text(OpCode::Inverse))[0] == 105u8,
        text(opcode_text(OpCode::Inverse))[1] == 110u8,
        text(opcode_text(OpCode::ToBinary)).len() == 9,
        text(opcode_text(OpCode::ToBinary))[0] == 116u8,
        text(opcode_text(OpCode::ToBinary))[1] == 111u8,
        text(opcode_text(OpCode::FromBinary)).len() == 11,
        text(opcode_text(OpCode::FromBinary))[0] == 102u8,
        text(opcode_text(OpCode::FromBinary))[1] == 114u8,
        text(opcode_text(OpCode::FromBinary))[10] == 121u8,
        text(opcode_text(OpCode::Xor)).len() == 3,
        text(opcode_text(OpCode::Xor))[0] == 120u8,
        text(opcode_text(OpCode::Xor))[1] == 111u8,
        text(opcode_text(OpCode::Or)).len() == 2,
        text(opcode_text(OpCode::Or))[0] == 111u8,
        text(opcode_text(OpCode::Or))[1] == 114u8,
        text(opcode_text(OpCode::And)).len() == 3,
        text(opcode_text(OpCode::And))[0] == 97u8,
        text(opcode_text(OpCode::And))[1] == 110u8,
        text(opcode_text(OpCode::Select)).len() == 6,
        text(opcode_text(OpCode::Select))[0] == 115u8,
        text(opcode_text(OpCode::Select))[1] == 101u8,
        text(opcode_text(OpCode::Lookup2)).len() == 7,
        text(opcode_text(OpCode::Lookup2))[0] == 108u8,
        text(opcode_text(OpCode::Lookup2))[1] == 111u8,
        text(opcode_text(OpCode::IsZero)).len() == 7,
        text(opcode_text(OpCode::IsZero))[0] == 105u8,
        text(opcode_text(OpCode::IsZero))[1] == 115u8,
        text(opcode_text(OpCode::Cmp)).len() == 3,
        text(opcode_text(OpCode::Cmp))[0] == 99u8,
        text(opcode_text(OpCode::Cmp))[1] == 109u8,
        text(opcode_text(OpCode::AssertIsEqual)).len() == 15,
        text(opcode_text(OpCode::AssertIsEqual))[0] == 97u8,
        text(opcode_text(OpCode::AssertIsEqual))[1] == 115u8,
        text(opcode_text(OpCode::AssertIsEqual))[10] == 101u8,
        text(opcode_text(OpCode::AssertIsDifferent)).len() == 19,
        text(opcode_text(OpCode::AssertIsDifferent))[0] == 97u8,
        text(opcode_text(OpCode::AssertIsDifferent))[1] == 115u8,
        text(opcode_text(OpCode::AssertIsDifferent))[10] == 100u8,
        text(opcode_text(OpCode::AssertIsBoolean)).len() == 17,
        text(opcode_text(OpCode::AssertIsBoolean))[0] == 97u8,
        text(opcode_text(OpCode::AssertIsBoolean))[1] == 115u8,
        text(opcode_text(OpCode::AssertIsBoolean))[10] == 98u8,
        text(opcode_text(OpCode::AssertIsCrumb)).len() == 15,
        text(opcode_text(OpCode::AssertIsCrumb))[0] == 97u8,
        text(opcode_text(OpCode::AssertIsCrumb))[1] == 115u8,
        text(opcode_text(OpCode::AssertIsCrumb))[10] == 99u8,
        text(opcode_text(OpCode::AssertIsLessOrEqual)).len() == 23,
        text(opcode_text(OpCode::AssertIsLessOrEqual))[0] == 97u8,
        text(opcode_text(OpCode::AssertIsLessOrEqual))[1] == 115u8,
        text(opcode_text(OpCode::AssertIsLessOrEqual))[10] == 108u8,
        text(opcode_text(OpCode::Println)).len() == 7,
        text(opcode_text(OpCode::Println))[0] == 112u8,
        text(opcode_text(OpCode::Println))[1] == 114u8,
{
    reveal_strlit("add");
    vstd::string::is_ascii_spec_bytes("add");
    assert(text("add") =~= seq![97u8, 100u8, 100u8]);
    reveal_strlit("mul_acc");
    vstd::string::is_ascii_spec_bytes("mul_acc");
    assert(text("mul_acc") =~= seq![109u8, 117u8, 108u8, 95u8, 97u8, 99u8, 99u8]);
    reveal_strlit("neg");
    vstd::string::is_ascii_spec_bytes("neg");
    assert(text("neg") =~= seq![110u8, 101u8, 103u8]);
    reveal_strlit("sub");
    vstd::string::is_ascii_spec_bytes("sub");
    assert(text("sub") =~= seq![115u8, 117u8, 98u8]);
    reveal_strlit("mul");
    vstd::string::is_ascii_spec_bytes("mul");
    assert(text("mul") =~= seq![109u8, 117u8, 108u8]);
    reveal_strlit("div_unchecked");
    vstd::string::is_ascii_spec_bytes("div_unchecked");
    assert(text("div_unchecked") =~= seq![100u8, 105u8, 118u8, 95u8, 117u8, 110u8, 99u8, 104u8, 101u8, 99u8, 107u8, 101u8, 100u8]);
    reveal_strlit("div");
    vstd::string::is_ascii_spec_bytes("div");
    assert(text("div") =~= seq![100u8, 105u8, 118u8]);
    reveal_strlit("inverse");
    vstd::string::is_ascii_spec_bytes("inverse");
    assert(text("inverse") =~= seq![105u8, 110u8, 118u8, 101u8, 114u8, 115u8, 101u8]);
    reveal_strlit("to_binary");
    vstd::string::is_ascii_spec_bytes("to_binary");
    assert(text("to_binary") =~= seq![116u8, 111u8, 95u8, 98u8, 105u8, 110u8, 97u8, 114u8, 121u8]);
    reveal_strlit("from_binary");
    vstd::string::is_ascii_spec_bytes("from_binary");
    assert(text("from_binary") =~= seq![102u8, 114u8, 111u8, 109u8, 95u8, 98u8, 105u8, 110u8, 97u8, 114u8, 121u8]);
    reveal_strlit("xor");
    vstd::string::is_ascii_spec_bytes("xor");
    assert(text("xor") =~= seq![120u8, 111u8, 114u8]);
    reveal_strlit("or");
    vstd::string::is_ascii_spec_bytes("or");
    assert(text("or") =~= seq![111u8, 114u8]);
    reveal_strlit("and");
    vstd::string::is_ascii_spec_bytes("and");
    assert(text("and") =~= seq![97u8, 110u8, 100u8]);
    reveal_strlit("select");
    vstd::string::is_ascii_spec_bytes("select");
    assert(text("select") =~= seq![115u8, 101u8, 108u8, 101u8, 99u8, 116u8]);
    reveal_strlit("lookup2");
    vstd::string::is_ascii_spec_bytes("lookup2");
    assert(text("lookup2") =~= seq![108u8, 111u8, 111u8, 107u8, 117u8, 112u8, 50u8]);
    reveal_strlit("is_zero");
    vstd::string::is_ascii_spec_bytes("is_zero");
    assert(text("is_zero") =~= seq![105u8, 115u8, 95u8, 122u8, 101u8, 114u8, 111u8]);
    reveal_strlit("cmp");
    vstd::string::is_ascii_spec_bytes("cmp");
    assert(text("cmp") =~= seq![99u8, 109u8, 112u8]);
    reveal_strlit("assert_is_equal");
    vstd::string::is_ascii_spec_bytes("assert_is_equal");
    assert(text("assert_is_equal") =~= seq![97u8, 115u8, 115u8, 101u8, 114u8, 116u8, 95u8, 105u8, 115u8, 95u8, 101u8, 113u8, 117u8, 97u8, 108u8]);
    reveal_strlit("assert_is_different");
    vstd::string::is_ascii_spec_bytes("assert_is_different");
    assert(text("assert_is_different") =~= seq![97u8, 115u8, 115u8, 101u8, 114u8, 116u8, 95u8, 105u8, 115u8, 95u8, 100u8, 105u8, 102u8, 102u8, 101u8, 114u8, 101u8, 110u8, 116u8]);
    reveal_strlit("assert_is_boolean");
    vstd::string::is_ascii_spec_bytes("assert_is_boolean");
    assert(text("assert_is_boolean") =~= seq![97u8, 115u8, 115u8, 101u8, 114u8, 116u8, 95u8, 105u8, 115u8, 95u8, 98u8, 111u8, 111u8, 108u8, 101u8, 97u8, 110u8]);
    reveal_strlit("assert_is_crumb");
    vstd::string::is_ascii_spec_bytes("assert_is_crumb");
    assert(text("assert_is_crumb") =~= seq![97u8, 115u8, 115u8, 101u8, 114u8, 116u8, 95u8, 105u8, 115u8, 95u8, 99u8, 114u8, 117u8, 109u8, 98u8]);
    reveal_strlit("assert_is_less_or_equal");
    vstd::string::is_ascii_spec_bytes("assert_is_less_or_equal");
    assert(text("assert_is_less_or_equal") =~= seq![97u8, 115u8, 115u8, 101u8, 114u8, 116u8, 95u8, 105u8, 115u8, 95u8, 108u8, 101u8, 115u8, 115u8, 95u8, 111u8, 114u8, 95u8, 101u8, 113u8, 117u8, 97u8, 108u8]);
    reveal_strlit("println");
    vstd::string::is_ascii_spec_bytes("println");
    assert(text("println") =~= seq![112u8, 114u8, 105u8, 110u8, 116u8, 108u8, 110u8]);
}

/// No operation name holds a double quote.
proof fn lemma_opcode_name_unquoted(op: OpCode)
    ensures
        forall|i: int|
            0 <= i < text(opcode_text(op)).len() ==> #[trigger] text(opcode_text(op))[i] != 34u8,
{
    match op {
        OpCode::Add => {
            reveal_strlit("add");
            vstd::string::is_ascii_spec_bytes("add");
            assert(text("add") =~= seq![97u8, 100u8, 100u8]);
        },
        OpCode::MulAcc => {
            reveal_strlit("mul_acc");
            vstd::string::is_ascii_spec_bytes("mul_acc");
            assert(text("mul_acc") =~= seq![109u8, 117u8, 108u8, 95u8, 97u8, 99u8, 99u8]);
        },
        OpCode::Neg => {
            reveal_strlit("neg");
            vstd::string::is_ascii_spec_bytes("neg");
            assert(text("neg") =~= seq![110u8, 101u8, 103u8]);
        },
        OpCode::Sub => {
            reveal_strlit("sub");
            vstd::string::is_ascii_spec_bytes("sub");
            assert(text("sub") =~= seq![115u8, 117u8, 98u8]);
        },
        OpCode::Mul => {
            reveal_strlit("mul");
            vstd::string::is_ascii_spec_bytes("mul");
            assert(text("mul") =~= seq![109u8, 117u8, 108u8]);
        },
        OpCode::DivUnchecked => {
            reveal_strlit("div_unchecked");
            vstd::string::is_ascii_spec_bytes("div_unchecked");
            assert(text("div_unchecked") =~= seq![100u8, 105u8, 118u8, 95u8, 117u8, 110u8, 99u8, 104u8, 101u8, 99u8, 107u8, 101u8, 100u8]);
        },
        OpCode::Div => {
            reveal_strlit("div");
            vstd::string::is_ascii_spec_bytes("div");
            assert(text("div") =~= seq![100u8, 105u8, 118u8]);
        },
        OpCode::Inverse => {
            reveal_strlit("inverse");
            vstd::string::is_ascii_spec_bytes("inverse");
            assert(text("inverse") =~= seq![105u8, 110u8, 118u8, 101u8, 114u8, 115u8, 101u8]);
        },
        OpCode::ToBinary => {
            reveal_strlit("to_binary");
            vstd::string::is_ascii_spec_bytes("to_binary");
            assert(text("to_binary") =~= seq![116u8, 111u8, 95u8, 98u8, 105u8, 110u8, 97u8, 114u8, 121u8]);
        },
        OpCode::FromBinary => {
            reveal_strlit("from_binary");
            vstd::string::is_ascii_spec_bytes("from_binary");
            assert(text("from_binary") =~= seq![102u8, 114u8, 111u8, 109u8, 95u8, 98u8, 105u8, 110u8, 97u8, 114u8, 121u8]);
        },
        OpCode::Xor => {
            reveal_strlit("xor");
            vstd::string::is_ascii_spec_bytes("xor");
            assert(text("xor") =~= seq![120u8, 111u8, 114u8]);
        },
        OpCode::Or => {
            reveal_strlit("or");
            vstd::string::is_ascii_spec_bytes("or");
            assert(text("or") =~= seq![111u8, 114u8]);
        },
        OpCode::And => {
            reveal_strlit("and");
            vstd::string::is_ascii_spec_bytes("and");
            assert(text("and") =~= seq![97u8, 110u8, 100u8]);
        },
        OpCode::Select => {
            reveal_strlit("select");
            vstd::string::is_ascii_spec_bytes("select");
            assert(text("select") =~= seq![115u8, 101u8, 108u8, 101u8, 99u8, 116u8]);
        },
        OpCode::Lookup2 => {
            reveal_strlit("lookup2");
            vstd::string::is_ascii_spec_bytes("lookup2");
            assert(text("lookup2") =~= seq![108u8, 111u8, 111u8, 107u8, 117u8, 112u8, 50u8]);
        },
        OpCode::IsZero => {
            reveal_strlit("is_zero");
            vstd::string::is_ascii_spec_bytes("is_zero");
            assert(text("is_zero") =~= seq![105u8, 115u8, 95u8, 122u8, 101u8, 114u8, 111u8]);
        },
        OpCode::Cmp => {
            reveal_strlit("cmp");
            vstd::string::is_ascii_spec_bytes("cmp");
            assert(text("cmp") =~= seq![99u8, 109u8, 112u8]);
        },
        OpCode::AssertIsEqual => {
            reveal_strlit("assert_is_equal");
            vstd::string::is_ascii_spec_bytes("assert_is_equal");
            assert(text("assert_is_equal") =~= seq![97u8, 115u8, 115u8, 101u8, 114u8, 116u8, 95u8, 105u8, 115u8, 95u8, 101u8, 113u8, 117u8, 97u8, 108u8]);
        },
        OpCode::AssertIsDifferent => {
            reveal_strlit("assert_is_different");
            vstd::string::is_ascii_spec_bytes("assert_is_different");
            assert(text("assert_is_different") =~= seq![97u8, 115u8, 115u8, 101u8, 114u8, 116u8, 95u8, 105u8, 115u8, 95u8, 100u8, 105u8, 102u8, 102u8, 101u8, 114u8, 101u8, 110u8, 116u8]);
        },
        OpCode::AssertIsBoolean => {
            reveal_strlit("assert_is_boolean");
            vstd::string::is_ascii_spec_bytes("assert_is_boolean");
            assert(text("assert_is_boolean") =~= seq![97u8, 115u8, 115u8, 101u8, 114u8, 116u8, 95u8, 105u8, 115u8, 95u8, 98u8, 111u8, 111u8, 108u8, 101u8, 97u8, 110u8]);
        },
        OpCode::AssertIsCrumb => {
            reveal_strlit("assert_is_crumb");
            vstd::string::is_ascii_spec_bytes("assert_is_crumb");
            assert(text("assert_is_crumb") =~= seq![97u8, 115u8, 115u8, 101u8, 114u8, 116u8, 95u8, 105u8, 115u8, 95u8, 99u8, 114u8, 117u8, 109u8, 98u8]);
        },
        OpCode::AssertIsLessOrEqual => {
            reveal_strlit("assert_is_less_or_equal");
            vstd::string::is_ascii_spec_bytes("assert_is_less_or_equal");
            assert(text("assert_is_less_or_equal") =~= seq![97u8, 115u8, 115u8, 101u8, 114u8, 116u8, 95u8, 105u8, 115u8, 95u8, 108u8, 101u8, 115u8, 115u8, 95u8, 111u8, 114u8, 95u8, 101u8, 113u8, 117u8, 97u8, 108u8]);
        },
        OpCode::Println => {
            reveal_strlit("println");
            vstd::string::is_ascii_spec_bytes("println");
            assert(text("println") =~= seq![112u8, 114u8, 105u8, 110u8, 116u8, 108u8, 110u8]);
        },
    }
}

/// Whether the bytes `name` are the text `lit`.
fn same_text(name: &Vec<u8>, lit: &str) -> (r: bool)
    ensures
        r == (name@ == text(lit)),
{
    let t = lit.as_bytes();
    if name.len() != t.len() {
        return false;
    }
    let mut i: usize = 0;
    while i < t.len()
        invariant
            i <= t@.len(),
            t@ == text(lit),
            name@.len() == t@.len(),
            forall|j: int| 0 <= j < i ==> name@[j] == t@[j],
        decreases t@.len() - i,
    {
        if name[i] != t[i] {
            return false;
        }
        i += 1;
    }
    assert(name@ =~= t@);
    true
}

/// The operation kind whose wire name is `name`.
fn opcode_of_name(name: &Vec<u8>) -> (r: Option<OpCode>)
    ensures
        forall|op: OpCode| #[trigger] text(opcode_text(op)) == name@ ==> r == Some(op),
        r matches Some(op) ==> text(opcode_text(op)) == name@,
{
    proof {
        lemma_opcode_names();
    }
    if name.len() < 2 {
        return None;
    }
    // The length, then the first byte, and where needed the second or the eleventh, tell
    // the names apart (bytes are ASCII codes); a full comparison follows.
    let len = name.len();
    let cand: Option<OpCode> = if len == 2 {
        Some(OpCode::Or)
    } else if len == 3 {
        if name[0] == 97u8 {
            if name[1] == 100u8 {
                Some(OpCode::Add)
            } else {
                Some(OpCode::And)
            }
        } else if name[0] == 110u8 {
            Some(OpCode::Neg)
        } else if name[0] == 115u8 {
            Some(OpCode::Sub)
        } else if name[0] == 109u8 {
            Some(OpCode::Mul)
        } else if name[0] == 100u8 {
            Some(OpCode::Div)
        } else if name[0] == 120u8 {
            Some(OpCode::Xor)
        } else if name[0] == 99u8 {
            Some(OpCode::Cmp)
        } else {
            None
        }
    } else if len == 6 {
        Some(OpCode::Select)
    } else if len == 7 {
        if name[0] == 109u8 {
            Some(OpCode::MulAcc)
        } else if name[0] == 105u8 {
            if name[1] == 110u8 {
                Some(OpCode::Inverse)
            } else {
                Some(OpCode::IsZero)
            }
        } else if name[0] == 108u8 {
            Some(OpCode::Lookup2)
        } else if name[0] == 112u8 {
            Some(OpCode::Println)
        } else {
            None
        }
    } else if len == 9 {
        Some(OpCode::ToBinary)
    } else if len == 11 {
        Some(OpCode::FromBinary)
    } else if len == 13 {
        Some(OpCode::DivUnchecked)
    } else if len == 15 {
        if name[0] == 97u8 {
            if name[10] == 101u8 {
                Some(OpCode::AssertIsEqual)
            } else {
                Some(OpCode::AssertIsCrumb)
            }
        } else {
            None
        }
    } else if len == 17 {
        Some(OpCode::AssertIsBoolean)
    } else if len == 19 {
        Some(OpCode::AssertIsDifferent)
    } else if len == 23 {
        Some(OpCode::AssertIsLessOrEqual)
    } else {
        None
    };
    match cand {
        Some(op) => if same_text(name, opcode_name(op)) {
            Some(op)
        } else {
            None
        },
        None => None,
    }
}

/// The first byte of the text between an operation's name and its inputs is a double quote.
proof fn lemma_op_texts()
    ensures
        text("\",\"in\":").len() > 0,
        text("\",\"in\":")[0] == 34u8,
{
    reveal_strlit("\",\"in\":");
    vstd::string::is_ascii_spec_bytes("\",\"in\":");
    assert(text("\",\"in\":") =~= seq![34u8, 44u8, 34u8, 105u8, 110u8, 34u8, 58u8]);
}

/// The pieces of an operation on the wire, where it stands at `pos`.
proof fn lemma_op_pieces(b: Seq<u8>, pos: int, o: OpView)
    requires
        starts_at(b, pos, wire_op(o)),
    ensures
        ({
            let nm = text(opcode_text(o.op));
            let v1 = wire_vars(o.inputs);
            let v2 = wire_vars(o.outputs);
            let a0 = pos + text("{\"op\":\"").len();
            let a1 = a0 + nm.len();
            let a2 = a1 + text("\",\"in\":").len();
            let a3 = a2 + v1.len();
            let a4 = a3 + text(",\"out\":").len();
            let a5 = a4 + v2.len();
            &&& starts_at(b, pos, text("{\"op\":\""))
            &&& starts_at(b, a0, nm)
            &&& starts_at(b, a1, text("\",\"in\":"))
            &&& a1 < b.len() && b[a1] == 34u8
            &&& starts_at(b, a2, v1)
            &&& starts_at(b, a3, text(",\"out\":"))
            &&& starts_at(b, a4, v2)
            &&& starts_at(b, a5, text("}"))
        }),
{
    lemma_op_texts();
    let o1 = text("{\"op\":\"");
    let nm = text(opcode_text(o.op));
    let i1 = text("\",\"in\":");
    let v1 = wire_vars(o.inputs);
    let i2 = text(",\"out\":");
    let v2 = wire_vars(o.outputs);
    let c = text("}");
    assert(wire_op(o) == o1 + nm + i1 + v1 + i2 + v2 + c);
    lemma_split(b, pos, o1 + nm + i1 + v1 + i2 + v2, c);
    lemma_split(b, pos, o1 + nm + i1 + v1 + i2, v2);
    lemma_split(b, pos, o1 + nm + i1 + v1, i2);
    lemma_split(b, pos, o1 + nm + i1, v1);
    lemma_split(b, pos, o1 + nm, i1);
    lemma_split(b, pos, o1, nm);
    let a1 = pos + o1.len() + nm.len();
    assert(b[a1] == b.subrange(a1, a1 + i1.len())[0]);
}

/// Reads an operation at `pos`; returns it and the position after it.
fn parse_op(bytes: &[u8], pos: usize) -> (r: Option<(Operation, usize)>)
    ensures
        forall|o: Operation|
            #[trigger] starts_at(bytes@, pos as int, wire_op(o@)) ==> (r matches Some((w, p)) && w@
                == o@ && p == pos + wire_op(o@).len()),
        r matches Some((w, p)) ==> pos < p <= bytes@.len(),
{
    let n = bytes.len();
    let open = "{\"op\":\"";
    let mid_in = "\",\"in\":";
    let mid_out = ",\"out\":";
    let close = "}";
    let open_len = open.as_bytes().len();
    let in_len = mid_in.as_bytes().len();
    let out_len = mid_out.as_bytes().len();
    proof {
        lemma_op_texts();
        lemma_var_prefixes();
        assert forall|o: Operation| #[trigger] starts_at(bytes@, pos as int, wire_op(o@)) implies ({
            let b = bytes@;
            let nm = text(opcode_text(o.op));
            let v1 = wire_vars(vars_of(o.inputs@));
            let v2 = wire_vars(vars_of(o.outputs@));
            let a0 = pos + text(open).len();
            let a1 = a0 + nm.len();
            let a2 = a1 + text(mid_in).len();
            let a3 = a2 + v1.len();
            let a4 = a3 + text(mid_out).len();
            let a5 = a4 + v2.len();
            &&& starts_at(b, pos as int, text(open))
            &&& starts_at(b, a0, nm)
            &&& starts_at(b, a1, text(mid_in))
            &&& a1 < b.len() && b[a1] == 34u8
            &&& starts_at(b, a2, v1)
            &&& starts_at(b, a3, text(mid_out))
            &&& starts_at(b, a4, v2)
            &&& starts_at(b, a5, text(close))
        }) by {
            lemma_op_pieces(bytes@, pos as int, o@);
        }
    }
    if !has_text(bytes, pos, open) {
        return None;
    }
    let at = pos + open_len;
    let mut q: usize = at;
    let mut name: Vec<u8> = Vec::new();
    while q < n && bytes[q] != 34u8
        invariant
            at <= q <= n,
            n == bytes@.len(),
            name@ == bytes@.subrange(at as int, q as int),
            forall|j: int| at <= j < q ==> bytes@[j] != 34u8,
        decreases n - q,
    {
        name.push(bytes[q]);
        q += 1;
        assert(name@ =~= bytes@.subrange(at as int, q as int));
    }
    proof {
        assert forall|o: Operation| #[trigger] starts_at(bytes@, pos as int, wire_op(o@)) implies name@
            == text(opcode_text(o.op)) && q == at + text(opcode_text(o.op)).len() by {
            let nm = text(opcode_text(o.op));
            lemma_opcode_name_unquoted(o.op);
            if q < at + nm.len() {
                assert(bytes@[q as int] == bytes@.subrange(at as int, at + nm.len())[q - at]);
            }
            if q > at + nm.len() {
                assert(bytes@[at + nm.len()] != 34u8);
            }
            assert forall|j: int| 0 <= j < nm.len() implies #[trigger] name@[j] == nm[j] by {
                assert(bytes@[at + j] == bytes@.subrange(at as int, at + nm.len())[j]);
            }
            assert(name@ =~= nm);
        }
    }
    let op = match opcode_of_name(&name) {
        Some(op) => op,
        None => return None,
    };
    if !has_text(bytes, q, mid_in) {
        return None;
    }
    let (inputs, p1) = match parse_vars(bytes, q + in_len) {
        Some(pair) => pair,
        None => return None,
    };
    if !has_text(bytes, p1, mid_out) {
        return None;
    }
    let (outputs, p2) = match parse_vars(bytes, p1 + out_len) {
        Some(pair) => pair,
        None => return None,
    };
    if !has_text(bytes, p2, close) {
        return None;
    }
    Some((Operation { op, inputs, outputs }, p2 + 1))
}

/// An array of operations on the wire.
pub open spec fn wire_ops(ops: Seq<OpView>) -> Seq<u8> {
    array(ops.map_values(|o: OpView| wire_op(o)))
}

/// The first byte of an operation on the wire is an opening brace.
proof fn lemma_op_first_byte(o: OpView)
    ensures
        wire_op(o).len() > 0,
        wire_op(o)[0] == 123u8,
{
    reveal_strlit("{\"op\":\"");
    vstd::string::is_ascii_spec_bytes("{\"op\":\"");
    assert(text("{\"op\":\"") =~= seq![123u8, 34u8, 111u8, 112u8, 34u8, 58u8, 34u8]);
}

/// Reads an array of operations at `pos`; returns them and the position after the array.
fn parse_ops(bytes: &[u8], pos: usize) -> (r: Option<(Vec<Operation>, usize)>)
    ensures
        forall|vs: Seq<Operation>|
            #[trigger] starts_at(bytes@, pos as int, wire_ops(ops_of(vs))) ==> (r matches Some((
                w,
                p,
            )) && ops_of(w@) == ops_of(vs) && p == pos + wire_ops(ops_of(vs)).len()),
        r matches Some((w, p)) ==> pos < p <= bytes@.len(),
{
    proof {
        lemma_punctuation();
    }
    let n = bytes.len();
    if !has_text(bytes, pos, "[") {
        proof {
            assert forall|vs: Seq<Operation>| #[trigger] starts_at(bytes@, pos as int, wire_ops(ops_of(vs))) implies false by {
                let w = wire_ops(ops_of(vs));
                assert(bytes@.subrange(pos as int, pos + w.len())[0] == w[0]);
                assert(bytes@.subrange(pos as int, pos + 1) =~= seq![bytes@[pos as int]]);
            }
        }
        return None;
    }
    let mut out: Vec<Operation> = Vec::new();
    let mut at: usize = pos + 1;
    if has_text(bytes, at, "]") {
        proof {
            assert forall|vs: Seq<Operation>| #[trigger] starts_at(bytes@, pos as int, wire_ops(ops_of(vs))) implies (
            ops_of(out@) == ops_of(vs) && at + 1 == pos + wire_ops(ops_of(vs)).len()) by {
                let parts = ops_of(vs).map_values(|o: OpView| wire_op(o));
                if vs.len() > 0 {
                    lemma_list_item(bytes@, pos as int, parts, 0);
                    assert(parts.subrange(0, 0) =~= Seq::<Seq<u8>>::empty());
                    lemma_op_first_byte(ops_of(vs)[0]);
                    assert(bytes@.subrange(at as int, at + 1)[0] == bytes@[at as int]);
                    assert(bytes@[at as int] == bytes@.subrange(at as int, at + parts[0].len())[0]);
                }
                assert(ops_of(out@) =~= ops_of(vs));
            }
        }
        return Some((out, at + 1));
    }
    let ghost at0 = at;
    proof {
        assert forall|vs: Seq<Operation>| #[trigger] starts_at(bytes@, pos as int, wire_ops(ops_of(vs))) implies vs.len() > 0 by {
            if vs.len() == 0 {
                assert(wire_ops(ops_of(vs)) =~= seq![91u8, 93u8]);
                assert(bytes@.subrange(at as int, at + 1) =~= seq![bytes@[at as int]]);
                assert(bytes@[at as int] == bytes@.subrange(pos as int, pos + 2)[1]);
            }
        }
        assert(ops_of(out@) =~= Seq::<OpView>::empty());
    }
    loop
        invariant
            n == bytes@.len(),
            pos < at <= n,
            at0 == pos + 1,
            forall|vs: Seq<Operation>| #[trigger] starts_at(bytes@, pos as int, wire_ops(ops_of(vs))) ==> {
                let parts = ops_of(vs).map_values(|o: OpView| wire_op(o));
                &&& out@.len() < vs.len()
                &&& ops_of(out@) == ops_of(vs).subrange(0, out@.len() as int)
                &&& at == at0 + join(parts.subrange(0, out@.len() as int)).len() + sep_len(out@.len() as int)
            },
        decreases n - at,
    {
        let ghost k = out@.len();
        let (v, next) = match parse_op(bytes, at) {
            Some(pair) => pair,
            None => {
                proof {
                    assert forall|vs: Seq<Operation>| #[trigger] starts_at(bytes@, pos as int, wire_ops(ops_of(vs))) implies false by {
                        let parts = ops_of(vs).map_values(|o: OpView| wire_op(o));
                        lemma_list_item(bytes@, pos as int, parts, k as int);
                        assert(starts_at(bytes@, at as int, wire_op(vs[k as int]@)));
                    }
                }
                return None;
            },
        };
        proof {
            assert forall|vs: Seq<Operation>| #[trigger] starts_at(bytes@, pos as int, wire_ops(ops_of(vs))) implies v@ == vs[k as int]@ && next == at + wire_op(vs[k as int]@).len() by {
                let parts = ops_of(vs).map_values(|o: OpView| wire_op(o));
                lemma_list_item(bytes@, pos as int, parts, k as int);
                assert(starts_at(bytes@, at as int, wire_op(vs[k as int]@)));
            }
        }
        let ghost before = out@;
        out.push(v);
        proof {
            assert(ops_of(out@) =~= ops_of(before).push(v@));
        }
        if next < n && bytes[next] == 44u8 {
            at = next + 1;
            proof {
                assert forall|vs: Seq<Operation>| #[trigger] starts_at(bytes@, pos as int, wire_ops(ops_of(vs))) implies ({
                    let parts = ops_of(vs).map_values(|o: OpView| wire_op(o));
                    &&& out@.len() < vs.len()
                    &&& ops_of(out@) == ops_of(vs).subrange(0, out@.len() as int)
                    &&& at == at0 + join(parts.subrange(0, out@.len() as int)).len() + sep_len(out@.len() as int)
                }) by {
                    let parts = ops_of(vs).map_values(|o: OpView| wire_op(o));
                    lemma_list_item(bytes@, pos as int, parts, k as int);
                    assert(starts_at(bytes@, at0 + join(parts.subrange(0, k as int)).len() + sep_len(k as int), wire_op(vs[k as int]@)));
                    assert(ops_of(vs).subrange(0, k + 1int) =~= ops_of(vs).subrange(0, k as int).push(vs[k as int]@));
                }
            }
        } else if next < n && bytes[next] == 93u8 {
            proof {
                assert forall|vs: Seq<Operation>| #[trigger] starts_at(bytes@, pos as int, wire_ops(ops_of(vs))) implies (
                ops_of(out@) == ops_of(vs) && next + 1 == pos + wire_ops(ops_of(vs)).len()) by {
                    let parts = ops_of(vs).map_values(|o: OpView| wire_op(o));
                    lemma_list_item(bytes@, pos as int, parts, k as int);
                    assert(ops_of(vs).subrange(0, k + 1int) =~= ops_of(vs).subrange(0, k as int).push(vs[k as int]@));
                    assert(ops_of(vs).subrange(0, k + 1int) =~= ops_of(vs));
                }
            }
            return Some((out, next + 1));
        } else {
            proof {
                assert forall|vs: Seq<Operation>| #[trigger] starts_at(bytes@, pos as int, wire_ops(ops_of(vs))) implies false by {
                    let parts = ops_of(vs).map_values(|o: OpView| wire_op(o));
                    lemma_list_item(bytes@, pos as int, parts, k as int);
                }
            }
            return None;
        }
    }
}

/// Reads an array of values at `pos`; returns them and the position after the array.
fn parse_values(bytes: &[u8], pos: usize) -> (r: Option<(Vec<FieldValue>, usize)>)
    ensures
        forall|xs: Seq<int>|
            #[trigger] starts_at(bytes@, pos as int, wire_values(xs)) ==> (r matches Some((v, p))
                && values_of(v@) == xs && p == pos + wire_values(xs).len()),
{
    proof {
        lemma_punctuation();
    }
    let n = bytes.len();
    if !has_text(bytes, pos, "[") {
        proof {
            assert forall|xs: Seq<int>| #[trigger] starts_at(bytes@, pos as int, wire_values(xs)) implies false by {
                assert(bytes@.subrange(pos as int, pos + wire_values(xs).len())[0] == wire_values(xs)[0]);
                assert(bytes@.subrange(pos as int, pos + 1) =~= seq![bytes@[pos as int]]);
            }
        }
        return None;
    }
    let mut out: Vec<FieldValue> = Vec::new();
    let mut at: usize = pos + 1;
    if has_text(bytes, at, "]") {
        proof {
            assert forall|xs: Seq<int>| #[trigger] starts_at(bytes@, pos as int, wire_values(xs)) implies (
            values_of(out@) == xs && at + 1 == pos + wire_values(xs).len()) by {
                let parts = xs.map_values(|x: int| wire_value(x));
                if xs.len() > 0 {
                    lemma_values_item(bytes@, pos as int, xs, 0);
                    assert(parts.subrange(0, 0) =~= Seq::<Seq<u8>>::empty());
                    assert(bytes@.subrange(at as int, at + 1)[0] == bytes@[at as int]);
                    assert(wire_value(xs[0])[0] == 34u8);
                    assert(bytes@[at as int] == bytes@.subrange(at as int, at + wire_value(xs[0]).len())[0]);
                }
                assert(values_of(out@) =~= xs);
            }
        }
        return Some((out, at + 1));
    }
    let ghost at0 = at;
    proof {
        assert forall|xs: Seq<int>| #[trigger] starts_at(bytes@, pos as int, wire_values(xs)) implies xs.len() > 0 by {
            if xs.len() == 0 {
                assert(wire_values(xs) =~= seq![91u8, 93u8]);
                assert(bytes@.subrange(at as int, at + 1) =~= seq![bytes@[at as int]]);
                assert(bytes@[at as int] == bytes@.subrange(pos as int, pos + 2)[1]);
            }
        }
        assert(values_of(out@) =~= Seq::<int>::empty());
    }
    loop
        invariant
            n == bytes@.len(),
            pos < at <= n,
            at0 == pos + 1,
            forall|xs: Seq<int>| #[trigger] starts_at(bytes@, pos as int, wire_values(xs)) ==> {
                let parts = xs.map_values(|x: int| wire_value(x));
                &&& out@.len() < xs.len()
                &&& values_of(out@) == xs.subrange(0, out@.len() as int)
                &&& at == at0 + join(parts.subrange(0, out@.len() as int)).len() + if out@.len() == 0 {
                    0int
                } else {
                    1int
                }
            },
        decreases n - at,
    {
        let ghost k = out@.len();
        let (v, next) = match parse_value(bytes, at) {
            Some(pair) => pair,
            None => {
                proof {
                    assert forall|xs: Seq<int>| #[trigger] starts_at(bytes@, pos as int, wire_values(xs)) implies false by {
                        lemma_values_item(bytes@, pos as int, xs, k as int);
                    }
                }
                return None;
            },
        };
        proof {
            assert forall|xs: Seq<int>| #[trigger] starts_at(bytes@, pos as int, wire_values(xs)) implies v@ == xs[k as int] && next == at + wire_value(xs[k as int]).len() by {
                lemma_values_item(bytes@, pos as int, xs, k as int);
            }
        }
        let ghost before = out@;
        out.push(v);
        proof {
            assert(values_of(out@) =~= values_of(before).push(v@));
        }
        if next < n && bytes[next] == 44u8 {
            at = next + 1;
            proof {
                assert forall|xs: Seq<int>| #[trigger] starts_at(bytes@, pos as int, wire_values(xs)) implies ({
                    let parts = xs.map_values(|x: int| wire_value(x));
                    &&& out@.len() < xs.len()
                    &&& values_of(out@) == xs.subrange(0, out@.len() as int)
                    &&& at == at0 + join(parts.subrange(0, out@.len() as int)).len() + 1
                }) by {
                    lemma_values_item(bytes@, pos as int, xs, k as int);
                    assert(xs.subrange(0, k + 1int) =~= xs.subrange(0, k as int).push(xs[k as int]));
                }
            }
        } else if next < n && bytes[next] == 93u8 {
            proof {
                assert forall|xs: Seq<int>| #[trigger] starts_at(bytes@, pos as int, wire_values(xs)) implies (
                values_of(out@) == xs && next + 1 == pos + wire_values(xs).len()) by {
                    lemma_values_item(bytes@, pos as int, xs, k as int);
                    assert(xs.subrange(0, k + 1int) =~= xs);
                }
            }
            return Some((out, next + 1));
        } else {
            proof {
                assert forall|xs: Seq<int>| #[trigger] starts_at(bytes@, pos as int, wire_values(xs)) implies false by {
                    lemma_values_item(bytes@, pos as int, xs, k as int);
                }
            }
            return None;
        }
    }
}

/// Where `b` is made of three pieces, the middle one stands after the first.
proof fn lemma_piece(b: Seq<u8>, pre: Seq<u8>, mid: Seq<u8>, post: Seq<u8>)
    requires
        b == pre + mid + post,
    ensures
        starts_at(b, pre.len() as int, mid),
{
    assert(b.subrange(pre.len() as int, (pre.len() + mid.len()) as int) =~= mid);
}

/// Byte-wise equality of a vector and a slice.
fn same_bytes(a: &Vec<u8>, b: &[u8]) -> (r: bool)
    ensures
        r == (a@ == b@),
{
    if a.len() != b.len() {
        return false;
    }
    let mut i: usize = 0;
    while i < a.len()
        invariant
            i <= a@.len(),
            a@.len() == b@.len(),
            forall|j: int| 0 <= j < i ==> a@[j] == b@[j],
        decreases a@.len() - i,
    {
        if a[i] != b[i] {
            return false;
        }
        i += 1;
    }
    assert(a@ =~= b@);
    true
}

/// The pieces of a definition on the wire.
proof fn lemma_definition_pieces(b: Seq<u8>, pl: nat, pu: nat, lo: nat, ops: Seq<OpView>)
    requires
        b == wire_definition(pl, pu, lo, ops),
    ensures
        ({
            let h1 = text("{\"private_len\":");
            let h2 = text(",\"public_len\":");
            let h3 = text(",\"local_len\":");
            let h4 = text(",\"operations\":");
            let d1 = decimal_text(pl as int);
            let d2 = decimal_text(pu as int);
            let d3 = decimal_text(lo as int);
            let w = wire_ops(ops);
            let a1 = h1.len() as int;
            let a2 = a1 + d1.len() + h2.len();
            let a3 = a2 + d2.len() + h3.len();
            let a4 = a3 + d3.len() + h4.len();
            &&& starts_at(b, 0, h1)
            &&& starts_at(b, a1, d1)
            &&& a1 + d1.len() < b.len() && b[a1 + d1.len()] == 44u8
            &&& starts_at(b, a1 + d1.len(), h2)
            &&& starts_at(b, a2, d2)
            &&& a2 + d2.len() < b.len() && b[a2 + d2.len()] == 44u8
            &&& starts_at(b, a2 + d2.len(), h3)
            &&& starts_at(b, a3, d3)
            &&& a3 + d3.len() < b.len() && b[a3 + d3.len()] == 44u8
            &&& starts_at(b, a3 + d3.len(), h4)
            &&& starts_at(b, a4, w)
        }),
{
    lemma_header_texts();
    let t1 = text("{\"private_len\":");
    let t2 = text(",\"public_len\":");
    let t3 = text(",\"local_len\":");
    let t4 = text(",\"operations\":");
    let d1 = decimal_text(pl as int);
    let d2 = decimal_text(pu as int);
    let d3 = decimal_text(lo as int);
    let w = wire_ops(ops);
    let c = text("}");
    assert(b == t1 + d1 + t2 + d2 + t3 + d3 + t4 + w + c);
    assert(starts_at(b, 0, b)) by {
        assert(b.subrange(0, b.len() as int) =~= b);
    }
    lemma_split(b, 0, t1 + d1 + t2 + d2 + t3 + d3 + t4 + w, c);
    lemma_split(b, 0, t1 + d1 + t2 + d2 + t3 + d3 + t4, w);
    lemma_split(b, 0, t1 + d1 + t2 + d2 + t3 + d3, t4);
    lemma_split(b, 0, t1 + d1 + t2 + d2 + t3, d3);
    lemma_split(b, 0, t1 + d1 + t2 + d2, t3);
    lemma_split(b, 0, t1 + d1 + t2, d2);
    lemma_split(b, 0, t1 + d1, t2);
    lemma_split(b, 0, t1, d1);
    let e1 = t1.len() + d1.len();
    let e2 = e1 + t2.len() + d2.len();
    let e3 = e2 + t3.len() + d3.len();
    assert(b[e1 as int] == b.subrange(e1 as int, (e1 + t2.len()) as int)[0]);
    assert(b[e2 as int] == b.subrange(e2 as int, (e2 + t3.len()) as int)[0]);
    assert(b[e3 as int] == b.subrange(e3 as int, (e3 + t4.len()) as int)[0]);
}

/// The texts that follow the counts of a definition begin with a comma.
proof fn lemma_header_texts()
    ensures
        text(",\"public_len\":").len() > 0,
        text(",\"public_len\":")[0] == 44u8,
        text(",\"local_len\":").len() > 0,
        text(",\"local_len\":")[0] == 44u8,
        text(",\"operations\":").len() > 0,
        text(",\"operations\":")[0] == 44u8,
{
    reveal_strlit(",\"public_len\":");
    reveal_strlit(",\"local_len\":");
    reveal_strlit(",\"operations\":");
    vstd::string::is_ascii_spec_bytes(",\"public_len\":");
    vstd::string::is_ascii_spec_bytes(",\"local_len\":");
    vstd::string::is_ascii_spec_bytes(",\"operations\":");
    assert(text(",\"public_len\":")[0] == 44u8);
    assert(text(",\"local_len\":")[0] == 44u8);
    assert(text(",\"operations\":")[0] == 44u8);
}

impl CircuitDefinition {
    /// The definition in the wire format.
    pub fn to_wire(&self) -> (r: Vec<u8>)
        ensures
            r@ == wire_definition(
                self.private_len as nat,
                self.public_len as nat,
                self.local_len as nat,
                ops_of(self.operations@),
            ),
    {
        let mut out: Vec<u8> = Vec::new();
        push_text(&mut out, "{\"private_len\":");
        push_index(&mut out, self.private_len);
        push_text(&mut out, ",\"public_len\":");
        push_index(&mut out, self.public_len);
        push_text(&mut out, ",\"local_len\":");
        push_index(&mut out, self.local_len);
        push_text(&mut out, ",\"operations\":");
        let ghost start = out@;
        let ghost parts = ops_of(self.operations@).map_values(|o: OpView| wire_op(o));
        push_text(&mut out, "[");
        let mut i: usize = 0;
        while i < self.operations.len()
            invariant
                i <= self.operations@.len(),
                parts == ops_of(self.operations@).map_values(|o: OpView| wire_op(o)),
                out@ == start + text("[") + join(parts.subrange(0, i as int)),
            decreases self.operations@.len() - i,
        {
            if i > 0 {
                push_text(&mut out, ",");
            }
            push_op(&mut out, &self.operations[i]);
            proof {
                lemma_join_push(parts.subrange(0, i as int), parts[i as int]);
                assert(parts.subrange(0, i as int).push(parts[i as int]) =~= parts.subrange(
                    0,
                    i + 1,
                ));
            }
            i += 1;
        }
        push_text(&mut out, "]");
        assert(parts.subrange(0, i as int) =~= parts);
        push_text(&mut out, "}");
        out
    }
    /// Reads a definition in the wire format. It returns the definition whose wire form the
    /// bytes are, and `None` for bytes that are the wire form of no definition.
    pub fn from_wire(bytes: &[u8]) -> (r: Option<CircuitDefinition>)
        ensures
            r matches Some(d) ==> wire_definition(
                d.private_len as nat,
                d.public_len as nat,
                d.local_len as nat,
                ops_of(d.operations@),
            ) == bytes@,
            forall|d: CircuitDefinition|
                #[trigger] wire_definition(
                    d.private_len as nat,
                    d.public_len as nat,
                    d.local_len as nat,
                    ops_of(d.operations@),
                ) == bytes@ ==> (r matches Some(e) && e.private_len == d.private_len
                    && e.public_len == d.public_len && e.local_len == d.local_len && ops_of(
                    e.operations@,
                ) == ops_of(d.operations@)),
    {
        let n = bytes.len();
        let h1 = "{\"private_len\":";
        let h2 = ",\"public_len\":";
        let h3 = ",\"local_len\":";
        let h4 = ",\"operations\":";
        let close = "}";
        proof {
            lemma_header_texts();
            assert forall|d: CircuitDefinition| #[trigger] wire_definition(
                d.private_len as nat,
                d.public_len as nat,
                d.local_len as nat,
                ops_of(d.operations@),
            ) == bytes@ implies ({
                let b = bytes@;
                let d1 = decimal_text(d.private_len as int);
                let d2 = decimal_text(d.public_len as int);
                let d3 = decimal_text(d.local_len as int);
                let w = wire_ops(ops_of(d.operations@));
                let a1 = text(h1).len() as int;
                let a2 = a1 + d1.len() + text(h2).len();
                let a3 = a2 + d2.len() + text(h3).len();
                let a4 = a3 + d3.len() + text(h4).len();
                &&& starts_at(b, 0, text(h1))
                &&& starts_at(b, a1, d1)
                &&& a1 + d1.len() < b.len() && b[a1 + d1.len()] == 44u8
                &&& starts_at(b, a1 + d1.len(), text(h2))
                &&& starts_at(b, a2, d2)
                &&& a2 + d2.len() < b.len() && b[a2 + d2.len()] == 44u8
                &&& starts_at(b, a2 + d2.len(), text(h3))
                &&& starts_at(b, a3, d3)
                &&& a3 + d3.len() < b.len() && b[a3 + d3.len()] == 44u8
                &&& starts_at(b, a3 + d3.len(), text(h4))
                &&& starts_at(b, a4, w)
            }) by {
                lemma_definition_pieces(
                    bytes@,
                    d.private_len as nat,
                    d.public_len as nat,
                    d.local_len as nat,
                    ops_of(d.operations@),
                );
            }
        }
        if !has_text(bytes, 0, h1) {
            return None;
        }
        let (private_len, q1) = match parse_index(bytes, h1.as_bytes().len()) {
            Some(pair) => pair,
            None => return None,
        };
        if !has_text(bytes, q1, h2) {
            return None;
        }
        let (public_len, q2) = match parse_index(bytes, q1 + h2.as_bytes().len()) {
            Some(pair) => pair,
            None => return None,
        };
        if !has_text(bytes, q2, h3) {
            return None;
        }
        let (local_len, q3) = match parse_index(bytes, q2 + h3.as_bytes().len()) {
            Some(pair) => pair,
            None => return None,
        };
        if !has_text(bytes, q3, h4) {
            return None;
        }
        let (operations, q4) = match parse_ops(bytes, q3 + h4.as_bytes().len()) {
            Some(pair) => pair,
            None => return None,
        };
        let d = CircuitDefinition { private_len, public_len, local_len, operations };
        let encoded = d.to_wire();
        if !same_bytes(&encoded, bytes) {
            return None;
        }
        Some(d)
    }
}

impl Witness {
    /// The witness in the wire format.
    pub fn to_wire(&self) -> (r: Vec<u8>)
        ensures
            r@ == wire_witness(values_of(self.public@), values_of(self.private@)),
    {
        let mut out: Vec<u8> = Vec::new();
        push_text(&mut out, "{\"public\":");
        push_values(&mut out, &self.public);
        push_text(&mut out, ",\"private\":");
        push_values(&mut out, &self.private);
        push_text(&mut out, "}");
        out
    }

    /// Reads a witness in the wire format. It returns the witness whose wire form the bytes
    /// are, and `None` for bytes that are the wire form of no witness.
    pub fn from_wire(bytes: &[u8]) -> (r: Option<Witness>)
        ensures
            r matches Some(w) ==> wire_witness(values_of(w.public@), values_of(w.private@))
                == bytes@,
            forall|p: Seq<int>, q: Seq<int>|
                #[trigger] wire_witness(p, q) == bytes@ ==> (r matches Some(w) && values_of(
                    w.public@,
                ) == p && values_of(w.private@) == q),
    {
        let head = "{\"public\":";
        let middle = ",\"private\":";
        proof {
            assert forall|p: Seq<int>, q: Seq<int>| #[trigger] wire_witness(p, q) == bytes@ implies
                starts_at(bytes@, 0, text(head)) && starts_at(
                bytes@,
                text(head).len() as int,
                wire_values(p),
            ) && starts_at(bytes@, (text(head).len() + wire_values(p).len()) as int, text(middle))
                && starts_at(
                bytes@,
                (text(head).len() + wire_values(p).len() + text(middle).len()) as int,
                wire_values(q),
            ) by {
                let h = text(head);
                let v1 = wire_values(p);
                let m = text(middle);
                let v2 = wire_values(q);
                let e = text("}");
                assert(bytes@ =~= Seq::empty() + h + (v1 + m + v2 + e));
                assert(bytes@ =~= h + v1 + (m + v2 + e));
                assert(bytes@ =~= h + v1 + m + (v2 + e));
                lemma_piece(bytes@, Seq::empty(), h, v1 + m + v2 + e);
                lemma_piece(bytes@, h, v1, m + v2 + e);
                lemma_piece(bytes@, h + v1, m, v2 + e);
                lemma_piece(bytes@, h + v1 + m, v2, e);
            }
        }
        let head_len = head.as_bytes().len();
        if !has_text(bytes, 0, head) {
            return None;
        }
        let (public, p1) = match parse_values(bytes, head_len) {
            Some(pair) => pair,
            None => return None,
        };
        if !has_text(bytes, p1, middle) {
            return None;
        }
        let middle_len = middle.as_bytes().len();
        if p1 > bytes.len() {
            return None;
        }
        let (private, p2) = match parse_values(bytes, p1 + middle_len) {
            Some(pair) => pair,
            None => return None,
        };
        let w = Witness { public, private };
        let encoded = w.to_wire();
        if !same_bytes(&encoded, bytes) {
            return None;
        }
        Some(w)
    }
}

impl PublicWitness {
    /// The public witness in the wire format.
    pub fn to_wire(&self) -> (r: Vec<u8>)
        ensures
            r@ == wire_public_witness(values_of(self.public@)),
    {
        let mut out: Vec<u8> = Vec::new();
        push_text(&mut out, "{\"public\":");
        push_values(&mut out, &self.public);
        push_text(&mut out, "}");
        out
    }

    /// Reads a public witness in the wire format. It returns the public witness whose wire
    /// form the bytes are, and `None` for bytes that are the wire form of none.
    pub fn from_wire(bytes: &[u8]) -> (r: Option<PublicWitness>)
        ensures
            r matches Some(w) ==> wire_public_witness(values_of(w.public@)) == bytes@,
            forall|p: Seq<int>|
                #[trigger] wire_public_witness(p) == bytes@ ==> (r matches Some(w) && values_of(
                    w.public@,
                ) == p),
    {
        let head = "{\"public\":";
        proof {
            assert forall|p: Seq<int>| #[trigger] wire_public_witness(p) == bytes@ implies starts_at(
                bytes@,
                0,
                text(head),
            ) && starts_at(bytes@, text(head).len() as int, wire_values(p)) by {
                let h = text(head);
                let v1 = wire_values(p);
                let e = text("}");
                assert(bytes@ =~= Seq::empty() + h + (v1 + e));
                lemma_piece(bytes@, Seq::empty(), h, v1 + e);
                lemma_piece(bytes@, h, v1, e);
            }
        }
        let head_len = head.as_bytes().len();
        if !has_text(bytes, 0, head) {
            return None;
        }
        let (public, p1) = match parse_values(bytes, head_len) {
            Some(pair) => pair,
            None => return None,
        };
        let w = PublicWitness { public };
        let encoded = w.to_wire();
        if !same_bytes(&encoded, bytes) {
            return None;
        }
        Some(w)
    }
}

} // verus!
