//! The lowered filter program and its `WDIR` binary encoding.
//!
//! Layout: `WDIR`, version 1, the layer mask byte, the payload flag byte,
//! a `u16` count of referenced fields each written as a `u16` length and
//! its bytes, a `u32` count of opcodes, and the opcodes. All integers are
//! little-endian.
use vstd::prelude::*;
use vstd::bytes::*;
use vstd::slice::slice_subrange;
use vstd::utf8::{valid_utf8, decode_utf8, encode_utf8, is_ascii_chars, is_ascii_chars_encode_utf8, encode_utf8_valid_utf8};
use vstd::string::StringSliceAdditionalSpecFns;
use crate::wire::{extend_bytes, push_u16_le, push_u32_le, push_u64_le, read_u16_le, read_u32_le, read_u64_le};
use crate::proto::le16_at;
use crate::text::{decimal, hex_digits, join3, push_decimal, push_hex};
use vstd::string::StringExecFns;
use crate::filter::fields::{Field, field_name, field_bytes, spec_field_of_bytes, spec_field_of_name, field_of_bytes};

verus! {

/// A set of layers, one bit per layer.
#[derive(Debug, Clone, Copy, PartialEq, Eq, Structural)]
pub struct LayerMask(u8);

/// The five layer bits.
pub open spec fn valid_layer_bits() -> u8 {
    0x1f
}

impl LayerMask {
    /// The raw bits of a mask.
    pub closed spec fn spec_bits(self) -> u8 {
        self.0
    }

    /// The empty set.
    pub fn empty() -> (m: LayerMask)
        ensures
            m.spec_bits() == 0,
    {
        LayerMask(0)
    }

    /// The Network layer bit.
    pub fn network() -> (m: LayerMask)
        ensures
            m.spec_bits() == 0x01,
    {
        LayerMask(0x01)
    }

    /// The NetworkForward layer bit.
    pub fn network_forward() -> (m: LayerMask)
        ensures
            m.spec_bits() == 0x02,
    {
        LayerMask(0x02)
    }

    /// The Flow layer bit.
    pub fn flow() -> (m: LayerMask)
        ensures
            m.spec_bits() == 0x04,
    {
        LayerMask(0x04)
    }

    /// The Socket layer bit.
    pub fn socket() -> (m: LayerMask)
        ensures
            m.spec_bits() == 0x08,
    {
        LayerMask(0x08)
    }

    /// The Reflect layer bit.
    pub fn reflect() -> (m: LayerMask)
        ensures
            m.spec_bits() == 0x10,
    {
        LayerMask(0x10)
    }

    /// Whether every bit of `other` is set here.
    pub fn contains(self, other: LayerMask) -> (r: bool)
        ensures
            r == (self.spec_bits() & other.spec_bits() == other.spec_bits()),
    {
        (self.0 & other.0) == other.0
    }

    /// Adds the bits of `other`: the mask then holds both its old bits and
    /// `other`'s, and a mask that already held `other` is left as it was.
    pub fn insert(&mut self, other: LayerMask)
        ensures
            final(self).spec_bits() == old(self).spec_bits() | other.spec_bits(),
            final(self).spec_bits() & other.spec_bits() == other.spec_bits(),
            final(self).spec_bits() & old(self).spec_bits() == old(self).spec_bits(),
            old(self).spec_bits() & other.spec_bits() == other.spec_bits() ==> *final(self) == *old(self),
    {
        let a = self.0;
        let b = other.0;
        assert((a | b) & b == b && (a | b) & a == a && (a & b == b ==> a | b == a)) by (bit_vector);
        self.0 = a | b;
    }

    /// Two masks with the same bits are the same mask.
    pub proof fn lemma_bits_determine(a: LayerMask, b: LayerMask)
        ensures
            a.spec_bits() == b.spec_bits() ==> a == b,
    {
    }

    /// Both sets' bits.
    pub fn union(self, other: LayerMask) -> (m: LayerMask)
        ensures
            m.spec_bits() == self.spec_bits() | other.spec_bits(),
    {
        LayerMask(self.0 | other.0)
    }

    /// The raw bits.
    pub fn bits(self) -> (b: u8)
        ensures
            b == self.spec_bits(),
    {
        self.0
    }

    /// The mask of `bits`, which must name only the five layers.
    pub fn from_bits(bits: u8) -> (r: Result<LayerMask, DecodeError>)
        ensures
            bits & !valid_layer_bits() == 0 ==> (r matches Ok(m) && m.spec_bits() == bits),
            bits & !valid_layer_bits() != 0 ==> r == Err::<LayerMask, DecodeError>(DecodeError::InvalidLayerMask(bits)),
    {
        if bits & !0x1fu8 != 0 {
            return Err(DecodeError::InvalidLayerMask(bits));
        }
        Ok(LayerMask(bits))
    }
}

/// One instruction of a filter program. Field tests and packet loads push
/// a boolean; `And`, `Or` and `Not` combine the top of the stack.
#[derive(Debug, Clone, PartialEq, Eq)]
pub enum OpCode {
    FieldTest { field: &'static str, value: u64 },
    PacketLoad32 { offset: u16, value: u32 },
    PacketLoad16 { offset: u16, value: u16 },
    PacketLoad8 { offset: u16, value: u8 },
    And,
    Or,
    Not,
}

/// An instruction with its field name as text.
pub enum OpView {
    FieldTest { field: Seq<char>, value: u64 },
    PacketLoad32 { offset: u16, value: u32 },
    PacketLoad16 { offset: u16, value: u16 },
    PacketLoad8 { offset: u16, value: u8 },
    And,
    Or,
    Not,
}

impl View for OpCode {
    type V = OpView;

    open spec fn view(&self) -> OpView {
        match *self {
            OpCode::FieldTest { field, value } => OpView::FieldTest { field: field@, value },
            OpCode::PacketLoad32 { offset, value } => OpView::PacketLoad32 { offset, value },
            OpCode::PacketLoad16 { offset, value } => OpView::PacketLoad16 { offset, value },
            OpCode::PacketLoad8 { offset, value } => OpView::PacketLoad8 { offset, value },
            OpCode::And => OpView::And,
            OpCode::Or => OpView::Or,
            OpCode::Not => OpView::Not,
        }
    }
}

/// A compiled filter: the layers it needs, whether it reads packet bytes,
/// the fields it names and its stack program.
#[derive(Debug, Clone, PartialEq, Eq)]
pub struct FilterIr {
    pub required_layers: LayerMask,
    pub needs_payload: bool,
    pub referenced_fields: Vec<&'static str>,
    pub program: Vec<OpCode>,
}

/// A compiled filter with its texts as character sequences.
pub struct IrView {
    pub required_layers: u8,
    pub needs_payload: bool,
    pub referenced_fields: Seq<Seq<char>>,
    pub program: Seq<OpView>,
}

/// Texts of a sequence of names.
pub open spec fn names_view(names: Seq<&'static str>) -> Seq<Seq<char>> {
    Seq::new(names.len(), |i: int| names[i]@)
}

/// Views of a sequence of instructions.
pub open spec fn ops_view(ops: Seq<OpCode>) -> Seq<OpView> {
    Seq::new(ops.len(), |i: int| ops[i]@)
}

impl View for FilterIr {
    type V = IrView;

    open spec fn view(&self) -> IrView {
        IrView {
            required_layers: self.required_layers.spec_bits(),
            needs_payload: self.needs_payload,
            referenced_fields: names_view(self.referenced_fields@),
            program: ops_view(self.program@),
        }
    }
}

/// Why a `WDIR` program failed to decode.
#[derive(Debug, Clone, PartialEq, Eq)]
pub enum DecodeError {
    InvalidMagic,
    UnsupportedVersion(u8),
    Truncated,
    InvalidLayerMask(u8),
    InvalidUtf8,
    UnsupportedField(String),
    UnsupportedOpcode(u8),
    TooManyReferencedFields(usize),
    ProgramTooLong(usize),
    FieldByteLengthTooLarge(usize),
}

/// A decode error with its text as a character sequence.
pub enum DecodeErrorView {
    InvalidMagic,
    UnsupportedVersion(u8),
    Truncated,
    InvalidLayerMask(u8),
    InvalidUtf8,
    UnsupportedField(Seq<char>),
    UnsupportedOpcode(u8),
    TooManyReferencedFields(usize),
    ProgramTooLong(usize),
    FieldByteLengthTooLarge(usize),
}

impl View for DecodeError {
    type V = DecodeErrorView;

    open spec fn view(&self) -> DecodeErrorView {
        match self {
            DecodeError::InvalidMagic => DecodeErrorView::InvalidMagic,
            DecodeError::UnsupportedVersion(v) => DecodeErrorView::UnsupportedVersion(*v),
            DecodeError::Truncated => DecodeErrorView::Truncated,
            DecodeError::InvalidLayerMask(m) => DecodeErrorView::InvalidLayerMask(*m),
            DecodeError::InvalidUtf8 => DecodeErrorView::InvalidUtf8,
            DecodeError::UnsupportedField(s) => DecodeErrorView::UnsupportedField(s@),
            DecodeError::UnsupportedOpcode(o) => DecodeErrorView::UnsupportedOpcode(*o),
            DecodeError::TooManyReferencedFields(n) => DecodeErrorView::TooManyReferencedFields(*n),
            DecodeError::ProgramTooLong(n) => DecodeErrorView::ProgramTooLong(*n),
            DecodeError::FieldByteLengthTooLarge(n) => DecodeErrorView::FieldByteLengthTooLarge(*n),
        }
    }
}

pub const MAX_REFERENCED_FIELDS: usize = 256;
pub const MAX_PROGRAM_LEN: usize = 4096;
pub const MAX_FIELD_BYTE_LEN: usize = 32;

/// A name written as its `u16` length and its bytes.
pub open spec fn name_record(name: Seq<u8>) -> Seq<u8> {
    spec_u16_to_le_bytes(name.len() as u16) + name
}

/// The records of a sequence of names, in order.
pub open spec fn names_bytes(names: Seq<Seq<char>>) -> Seq<u8>
    decreases names.len(),
{
    if names.len() == 0 {
        Seq::empty()
    } else {
        names_bytes(names.drop_last()) + name_record(encode_utf8(names.last()))
    }
}

/// Bytes of one instruction.
pub open spec fn op_bytes(op: OpView) -> Seq<u8> {
    match op {
        OpView::FieldTest { field, value } => seq![1u8] + name_record(encode_utf8(field)) + spec_u64_to_le_bytes(value),
        OpView::PacketLoad32 { offset, value } => seq![2u8] + spec_u16_to_le_bytes(offset) + spec_u32_to_le_bytes(value),
        OpView::PacketLoad16 { offset, value } => seq![7u8] + spec_u16_to_le_bytes(offset) + spec_u16_to_le_bytes(value),
        OpView::PacketLoad8 { offset, value } => seq![3u8] + spec_u16_to_le_bytes(offset) + seq![value],
        OpView::And => seq![4u8],
        OpView::Or => seq![5u8],
        OpView::Not => seq![6u8],
    }
}

/// Bytes of a sequence of instructions, in order.
pub open spec fn ops_bytes(ops: Seq<OpView>) -> Seq<u8>
    decreases ops.len(),
{
    if ops.len() == 0 {
        Seq::empty()
    } else {
        ops_bytes(ops.drop_last()) + op_bytes(ops.last())
    }
}

/// The bytes `WDIR`.
pub open spec fn ir_magic() -> Seq<u8> {
    seq![0x57u8, 0x44u8, 0x49u8, 0x52u8]
}

/// The `WDIR` encoding of a compiled filter. Counts and lengths are written
/// truncated to their field widths.
pub open spec fn spec_ir_bytes(ir: IrView) -> Seq<u8> {
    ir_magic() + seq![1u8, ir.required_layers, if ir.needs_payload { 1u8 } else { 0u8 }]
        + spec_u16_to_le_bytes(ir.referenced_fields.len() as u16) + names_bytes(ir.referenced_fields)
        + spec_u32_to_le_bytes(ir.program.len() as u32) + ops_bytes(ir.program)
}

fn push_name_record(out: &mut Vec<u8>, name: &'static str)
    ensures
        final(out)@ == old(out)@ + name_record(encode_utf8(name@)),
{
    let bytes = name.as_bytes();
    push_u16_le(out, bytes.len() as u16);
    extend_bytes(out, bytes);
    assert(final(out)@ =~= old(out)@ + name_record(encode_utf8(name@)));
}

/// Encodes a compiled filter.
pub fn encode_ir(ir: &FilterIr) -> (out: Vec<u8>)
    ensures
        out@ == spec_ir_bytes(ir@),
{
    let mut out: Vec<u8> = Vec::new();
    out.push(0x57);
    out.push(0x44);
    out.push(0x49);
    out.push(0x52);
    out.push(1);
    out.push(ir.required_layers.bits());
    out.push(if ir.needs_payload { 1 } else { 0 });
    push_u16_le(&mut out, ir.referenced_fields.len() as u16);
    let ghost head = out@;
    let ghost names = names_view(ir.referenced_fields@);
    let mut i: usize = 0;
    while i < ir.referenced_fields.len()
        invariant
            i <= ir.referenced_fields@.len(),
            names == names_view(ir.referenced_fields@),
            out@ == head + names_bytes(names.take(i as int)),
        decreases ir.referenced_fields@.len() - i,
    {
        push_name_record(&mut out, ir.referenced_fields[i]);
        assert(names.take(i + 1).drop_last() =~= names.take(i as int));
        i = i + 1;
    }
    assert(names.take(i as int) =~= names);
    push_u32_le(&mut out, ir.program.len() as u32);
    let ghost head2 = out@;
    let ghost ops = ops_view(ir.program@);
    let mut k: usize = 0;
    while k < ir.program.len()
        invariant
            k <= ir.program@.len(),
            ops == ops_view(ir.program@),
            out@ == head2 + ops_bytes(ops.take(k as int)),
        decreases ir.program@.len() - k,
    {
        let ghost before = out@;
        match &ir.program[k] {
            OpCode::FieldTest { field, value } => {
                out.push(1);
                push_name_record(&mut out, *field);
                push_u64_le(&mut out, *value);
            },
            OpCode::PacketLoad32 { offset, value } => {
                out.push(2);
                push_u16_le(&mut out, *offset);
                push_u32_le(&mut out, *value);
            },
            OpCode::PacketLoad16 { offset, value } => {
                out.push(7);
                push_u16_le(&mut out, *offset);
                push_u16_le(&mut out, *value);
            },
            OpCode::PacketLoad8 { offset, value } => {
                out.push(3);
                push_u16_le(&mut out, *offset);
                out.push(*value);
            },
            OpCode::And => out.push(4),
            OpCode::Or => out.push(5),
            OpCode::Not => out.push(6),
        }
        assert(out@ =~= before + op_bytes(ops[k as int]));
        assert(ops.take(k + 1).drop_last() =~= ops.take(k as int));
        k = k + 1;
    }
    assert(ops.take(k as int) =~= ops);
    assert(out@ =~= spec_ir_bytes(ir@));
    out
}

/// The text `bytes` encode, if they are valid UTF-8 (`std::str::from_utf8`).
#[verifier::external_body]
fn str_from_utf8(bytes: &[u8]) -> (r: Option<&str>)
    ensures
        r is Some <==> valid_utf8(bytes@),
        r matches Some(s) ==> s@ == decode_utf8(bytes@),
{
    std::str::from_utf8(bytes).ok()
}

/// Reads a name record at `pos`: its bytes and the position after it.
pub open spec fn rd_name(b: Seq<u8>, pos: int) -> Result<(Seq<u8>, int), DecodeErrorView> {
    if pos + 2 > b.len() {
        Err(DecodeErrorView::Truncated)
    } else if le16_at(b, pos) > 32 {
        Err(DecodeErrorView::FieldByteLengthTooLarge(le16_at(b, pos) as usize))
    } else if pos + 2 + le16_at(b, pos) > b.len() {
        Err(DecodeErrorView::Truncated)
    } else {
        Ok((b.subrange(pos + 2, pos + 2 + le16_at(b, pos)), pos + 2 + le16_at(b, pos)))
    }
}

/// Reads a field name record at `pos`: the field's canonical text and the
/// position after it.
pub open spec fn rd_field(b: Seq<u8>, pos: int) -> Result<(Seq<char>, int), DecodeErrorView> {
    match rd_name(b, pos) {
        Err(e) => Err(e),
        Ok((nb, p)) => if !valid_utf8(nb) {
            Err(DecodeErrorView::InvalidUtf8)
        } else {
            match spec_field_of_bytes(nb) {
                Some(f) => Ok((field_name(f), p)),
                None => Err(DecodeErrorView::UnsupportedField(decode_utf8(nb))),
            }
        },
    }
}

/// Reads `count` field name records at `pos`, appending them to `acc`.
pub open spec fn rd_fields(b: Seq<u8>, pos: int, count: nat, acc: Seq<Seq<char>>) -> Result<(Seq<Seq<char>>, int), DecodeErrorView>
    decreases count,
{
    if count == 0 {
        Ok((acc, pos))
    } else {
        match rd_field(b, pos) {
            Err(e) => Err(e),
            Ok((f, p)) => rd_fields(b, p, (count - 1) as nat, acc.push(f)),
        }
    }
}

/// Reads one instruction at `pos`.
pub open spec fn rd_op(b: Seq<u8>, pos: int) -> Result<(OpView, int), DecodeErrorView> {
    if pos + 1 > b.len() {
        Err(DecodeErrorView::Truncated)
    } else {
        let code = b[pos];
        let p = pos + 1;
        if code == 1 {
            match rd_field(b, p) {
                Err(e) => Err(e),
                Ok((f, q)) => if q + 8 > b.len() {
                    Err(DecodeErrorView::Truncated)
                } else {
                    Ok((OpView::FieldTest { field: f, value: spec_u64_from_le_bytes(b.subrange(q, q + 8)) }, q + 8))
                },
            }
        } else if code == 2 {
            if p + 2 > b.len() || p + 6 > b.len() {
                Err(DecodeErrorView::Truncated)
            } else {
                Ok((OpView::PacketLoad32 { offset: le16_at(b, p), value: spec_u32_from_le_bytes(b.subrange(p + 2, p + 6)) }, p + 6))
            }
        } else if code == 7 {
            if p + 2 > b.len() || p + 4 > b.len() {
                Err(DecodeErrorView::Truncated)
            } else {
                Ok((OpView::PacketLoad16 { offset: le16_at(b, p), value: le16_at(b, p + 2) }, p + 4))
            }
        } else if code == 3 {
            if p + 2 > b.len() || p + 3 > b.len() {
                Err(DecodeErrorView::Truncated)
            } else {
                Ok((OpView::PacketLoad8 { offset: le16_at(b, p), value: b[p + 2] }, p + 3))
            }
        } else if code == 4 {
            Ok((OpView::And, p))
        } else if code == 5 {
            Ok((OpView::Or, p))
        } else if code == 6 {
            Ok((OpView::Not, p))
        } else {
            Err(DecodeErrorView::UnsupportedOpcode(code))
        }
    }
}

/// Reads `count` instructions at `pos`, appending them to `acc`.
pub open spec fn rd_ops(b: Seq<u8>, pos: int, count: nat, acc: Seq<OpView>) -> Result<(Seq<OpView>, int), DecodeErrorView>
    decreases count,
{
    if count == 0 {
        Ok((acc, pos))
    } else {
        match rd_op(b, pos) {
            Err(e) => Err(e),
            Ok((op, p)) => rd_ops(b, p, (count - 1) as nat, acc.push(op)),
        }
    }
}

/// What decoding `b` as a `WDIR` program gives: the first problem met
/// reading front to back, or the program; trailing bytes are refused as
/// an unsupported opcode.
pub open spec fn spec_decode_ir(b: Seq<u8>) -> Result<IrView, DecodeErrorView> {
    if b.len() < 4 {
        Err(DecodeErrorView::Truncated)
    } else if b.subrange(0, 4) != ir_magic() {
        Err(DecodeErrorView::InvalidMagic)
    } else if b.len() < 5 {
        Err(DecodeErrorView::Truncated)
    } else if b[4] != 1 {
        Err(DecodeErrorView::UnsupportedVersion(b[4]))
    } else if b.len() < 6 {
        Err(DecodeErrorView::Truncated)
    } else if b[5] & !valid_layer_bits() != 0 {
        Err(DecodeErrorView::InvalidLayerMask(b[5]))
    } else if b.len() < 9 {
        Err(DecodeErrorView::Truncated)
    } else if le16_at(b, 7) > 256 {
        Err(DecodeErrorView::TooManyReferencedFields(le16_at(b, 7) as usize))
    } else {
        match rd_fields(b, 9, le16_at(b, 7) as nat, Seq::empty()) {
            Err(e) => Err(e),
            Ok((fields, p)) => if p + 4 > b.len() {
                Err(DecodeErrorView::Truncated)
            } else if spec_u32_from_le_bytes(b.subrange(p, p + 4)) > 4096 {
                Err(DecodeErrorView::ProgramTooLong(spec_u32_from_le_bytes(b.subrange(p, p + 4)) as usize))
            } else {
                match rd_ops(b, p + 4, spec_u32_from_le_bytes(b.subrange(p, p + 4)) as nat, Seq::empty()) {
                    Err(e) => Err(e),
                    Ok((ops, q)) => if q != b.len() {
                        Err(DecodeErrorView::UnsupportedOpcode(b[q]))
                    } else {
                        Ok(IrView { required_layers: b[5], needs_payload: b[6] != 0, referenced_fields: fields, program: ops })
                    },
                }
            },
        }
    }
}

fn decode_field(b: &[u8], pos: usize) -> (r: Result<(&'static str, usize), DecodeError>)
    requires
        pos <= b@.len(),
    ensures
        match rd_field(b@, pos as int) {
            Ok((f, p)) => r matches Ok((s, q)) && s@ == f && q == p && q <= b@.len(),
            Err(e) => r matches Err(x) && x@ == e,
        },
{
    let n = b.len();
    if n - pos < 2 {
        return Err(DecodeError::Truncated);
    }
    let len = read_u16_le(b, pos) as usize;
    if len > MAX_FIELD_BYTE_LEN {
        return Err(DecodeError::FieldByteLengthTooLarge(len));
    }
    if n - pos - 2 < len {
        return Err(DecodeError::Truncated);
    }
    let name = slice_subrange(b, pos + 2, pos + 2 + len);
    match str_from_utf8(name) {
        None => Err(DecodeError::InvalidUtf8),
        Some(text) => match field_of_bytes(name) {
            Some(f) => Ok((f.as_str(), pos + 2 + len)),
            None => Err(DecodeError::UnsupportedField(text.to_owned())),
        },
    }
}

fn read_op(b: &[u8], pos: usize) -> (r: Result<(OpCode, usize), DecodeError>)
    requires
        pos <= b@.len(),
    ensures
        match rd_op(b@, pos as int) {
            Ok((op, p)) => r matches Ok((o, q)) && o@ == op && q == p && q <= b@.len(),
            Err(e) => r matches Err(x) && x@ == e,
        },
{
    let n = b.len();
    if n - pos < 1 {
        return Err(DecodeError::Truncated);
    }
    let code = b[pos];
    let p = pos + 1;
    if code == 1 {
        let (field, q) = decode_field(b, p)?;
        if n - q < 8 {
            return Err(DecodeError::Truncated);
        }
        let value = read_u64_le(b, q);
        Ok((OpCode::FieldTest { field, value }, q + 8))
    } else if code == 2 {
        if n - p < 6 {
            return Err(DecodeError::Truncated);
        }
        Ok((OpCode::PacketLoad32 { offset: read_u16_le(b, p), value: read_u32_le(b, p + 2) }, p + 6))
    } else if code == 7 {
        if n - p < 4 {
            return Err(DecodeError::Truncated);
        }
        Ok((OpCode::PacketLoad16 { offset: read_u16_le(b, p), value: read_u16_le(b, p + 2) }, p + 4))
    } else if code == 3 {
        if n - p < 3 {
            return Err(DecodeError::Truncated);
        }
        Ok((OpCode::PacketLoad8 { offset: read_u16_le(b, p), value: b[p + 2] }, p + 3))
    } else if code == 4 {
        Ok((OpCode::And, p))
    } else if code == 5 {
        Ok((OpCode::Or, p))
    } else if code == 6 {
        Ok((OpCode::Not, p))
    } else {
        Err(DecodeError::UnsupportedOpcode(code))
    }
}

/// Decodes a `WDIR` program.
pub fn decode_ir(bytes: &[u8]) -> (r: Result<FilterIr, DecodeError>)
    ensures
        match spec_decode_ir(bytes@) {
            Ok(v) => r matches Ok(ir) && ir@ == v,
            Err(e) => r matches Err(x) && x@ == e,
        },
{
    let n = bytes.len();
    if n < 4 {
        return Err(DecodeError::Truncated);
    }
    if !(bytes[0] == 0x57 && bytes[1] == 0x44 && bytes[2] == 0x49 && bytes[3] == 0x52) {
        proof {
            if bytes@.subrange(0, 4) == ir_magic() {
                assert(bytes@.subrange(0, 4)[0] == bytes@[0]);
                assert(bytes@.subrange(0, 4)[1] == bytes@[1]);
                assert(bytes@.subrange(0, 4)[2] == bytes@[2]);
                assert(bytes@.subrange(0, 4)[3] == bytes@[3]);
            }
        }
        return Err(DecodeError::InvalidMagic);
    }
    assert(bytes@.subrange(0, 4) =~= ir_magic());
    if n < 5 {
        return Err(DecodeError::Truncated);
    }
    let version = bytes[4];
    if version != 1 {
        return Err(DecodeError::UnsupportedVersion(version));
    }
    if n < 6 {
        return Err(DecodeError::Truncated);
    }
    let mask = bytes[5];
    let required_layers = match LayerMask::from_bits(mask) {
        Ok(m) => m,
        Err(e) => return Err(e),
    };
    if n < 7 {
        return Err(DecodeError::Truncated);
    }
    let needs_payload = bytes[6] != 0;
    if n < 9 {
        return Err(DecodeError::Truncated);
    }
    let field_count = read_u16_le(bytes, 7) as usize;
    if field_count > MAX_REFERENCED_FIELDS {
        return Err(DecodeError::TooManyReferencedFields(field_count));
    }
    let mut referenced_fields: Vec<&'static str> = Vec::new();
    let mut pos: usize = 9;
    let mut i: usize = 0;
    assert(names_view(referenced_fields@) =~= Seq::<Seq<char>>::empty());
    while i < field_count
        invariant
            n == bytes@.len(),
            9 <= pos <= n,
            i <= field_count,
            field_count == le16_at(bytes@, 7),
            bytes@.subrange(0, 4) == ir_magic(),
            bytes@[4] == 1,
            bytes@[5] & !valid_layer_bits() == 0,
            field_count <= 256,
            rd_fields(bytes@, 9, field_count as nat, Seq::empty())
                == rd_fields(bytes@, pos as int, (field_count - i) as nat, names_view(referenced_fields@)),
        decreases field_count - i,
    {
        let (field, next) = match decode_field(bytes, pos) {
            Ok(v) => v,
            Err(e) => {
                assert(rd_fields(bytes@, pos as int, (field_count - i) as nat, names_view(referenced_fields@)) == Err::<(Seq<Seq<char>>, int), DecodeErrorView>(e@));
                return Err(e);
            },
        };
        assert(names_view(referenced_fields@.push(field)) =~= names_view(referenced_fields@).push(field@));
        referenced_fields.push(field);
        pos = next;
        i = i + 1;
    }
    if n - pos < 4 {
        return Err(DecodeError::Truncated);
    }
    let program_count = read_u32_le(bytes, pos) as usize;
    if program_count > MAX_PROGRAM_LEN {
        return Err(DecodeError::ProgramTooLong(program_count));
    }
    let ghost ops_start = pos + 4;
    pos = pos + 4;
    let mut program: Vec<OpCode> = Vec::new();
    let mut k: usize = 0;
    assert(ops_view(program@) =~= Seq::<OpView>::empty());
    while k < program_count
        invariant
            n == bytes@.len(),
            pos <= n,
            k <= program_count,
            bytes@.subrange(0, 4) == ir_magic(),
            bytes@[4] == 1,
            bytes@[5] & !valid_layer_bits() == 0,
            le16_at(bytes@, 7) <= 256,
            n >= 9,
            ops_start >= 4,
            rd_fields(bytes@, 9, le16_at(bytes@, 7) as nat, Seq::empty()) matches Ok((fs, p)) && p + 4 == ops_start
                && p + 4 <= n && spec_u32_from_le_bytes(bytes@.subrange(p, p + 4)) == program_count
                && program_count <= 4096
                && rd_ops(bytes@, ops_start, program_count as nat, Seq::empty())
                == rd_ops(bytes@, pos as int, (program_count - k) as nat, ops_view(program@)),
        decreases program_count - k,
    {
        let (op, next) = match read_op(bytes, pos) {
            Ok(v) => v,
            Err(e) => {
                assert(rd_ops(bytes@, pos as int, (program_count - k) as nat, ops_view(program@)) == Err::<(Seq<OpView>, int), DecodeErrorView>(e@));
                return Err(e);
            },
        };
        let ghost opv = op@;
        assert(ops_view(program@.push(op)) =~= ops_view(program@).push(opv));
        program.push(op);
        pos = next;
        k = k + 1;
    }
    if pos != n {
        return Err(DecodeError::UnsupportedOpcode(bytes[pos]));
    }
    let ir = FilterIr { required_layers, needs_payload, referenced_fields, program };
    assert(spec_decode_ir(bytes@) matches Ok(v) && ir@ == v);
    Ok(ir)
}


/// Whether `name` is the canonical spelling of a field.
pub open spec fn is_field_name(name: Seq<char>) -> bool {
    spec_field_of_name(name) is Some
}

/// Whether an instruction names only known fields.
pub open spec fn op_encodable(op: OpView) -> bool {
    match op {
        OpView::FieldTest { field, .. } => is_field_name(field),
        _ => true,
    }
}

/// Whether a compiled filter is within what the `WDIR` decoder accepts:
/// known layer bits, known field names, and counts within the limits.
pub open spec fn ir_encodable(ir: IrView) -> bool {
    &&& ir.required_layers & !valid_layer_bits() == 0
    &&& ir.referenced_fields.len() <= 256
    &&& ir.program.len() <= 4096
    &&& forall|i: int| 0 <= i < ir.referenced_fields.len() ==> is_field_name(#[trigger] ir.referenced_fields[i])
    &&& forall|i: int| 0 <= i < ir.program.len() ==> op_encodable(#[trigger] ir.program[i])
}

/// A field's canonical name is ASCII, at most 32 bytes long, and reads
/// back as that field both as text and as bytes.
pub proof fn lemma_field_encoding(f: Field)
    ensures
        encode_utf8(field_name(f)) == field_bytes(f),
        field_bytes(f).len() <= 32,
        valid_utf8(field_bytes(f)),
        spec_field_of_bytes(field_bytes(f)) == Some(f),
        spec_field_of_name(field_name(f)) == Some(f),
{
    let n = field_name(f);
    assert(is_ascii_chars(n)) by {
        match f {
            Field::Event => {},
            Field::Layer => {},
            Field::ProcessId => {},
            Field::Tcp => {},
            Field::Udp => {},
            Field::Ipv4 => {},
            Field::Ipv6 => {},
            Field::LocalAddr => {},
            Field::RemoteAddr => {},
            Field::LocalPort => {},
            Field::RemotePort => {},
            Field::Outbound => {},
            Field::Inbound => {},
            Field::Packet => {},
        }
    }
    is_ascii_chars_encode_utf8(n);
    assert(encode_utf8(n) =~= field_bytes(f));
    encode_utf8_valid_utf8(n);
    assert(field_bytes(Field::Event) =~= seq![0x65u8, 0x76, 0x65, 0x6e, 0x74]);
    assert(field_bytes(Field::Layer) =~= seq![0x6cu8, 0x61, 0x79, 0x65, 0x72]);
    assert(field_bytes(Field::ProcessId) =~= seq![0x70u8, 0x72, 0x6f, 0x63, 0x65, 0x73, 0x73, 0x49, 0x64]);
    assert(field_bytes(Field::Tcp) =~= seq![0x74u8, 0x63, 0x70]);
    assert(field_bytes(Field::Udp) =~= seq![0x75u8, 0x64, 0x70]);
    assert(field_bytes(Field::Ipv4) =~= seq![0x69u8, 0x70, 0x76, 0x34]);
    assert(field_bytes(Field::Ipv6) =~= seq![0x69u8, 0x70, 0x76, 0x36]);
    assert(field_bytes(Field::LocalAddr) =~= seq![0x6cu8, 0x6f, 0x63, 0x61, 0x6c, 0x41, 0x64, 0x64, 0x72]);
    assert(field_bytes(Field::RemoteAddr) =~= seq![0x72u8, 0x65, 0x6d, 0x6f, 0x74, 0x65, 0x41, 0x64, 0x64, 0x72]);
    assert(field_bytes(Field::LocalPort) =~= seq![0x6cu8, 0x6f, 0x63, 0x61, 0x6c, 0x50, 0x6f, 0x72, 0x74]);
    assert(field_bytes(Field::RemotePort) =~= seq![0x72u8, 0x65, 0x6d, 0x6f, 0x74, 0x65, 0x50, 0x6f, 0x72, 0x74]);
    assert(field_bytes(Field::Outbound) =~= seq![0x6fu8, 0x75, 0x74, 0x62, 0x6f, 0x75, 0x6e, 0x64]);
    assert(field_bytes(Field::Inbound) =~= seq![0x69u8, 0x6e, 0x62, 0x6f, 0x75, 0x6e, 0x64]);
    assert(field_bytes(Field::Packet) =~= seq![0x70u8, 0x61, 0x63, 0x6b, 0x65, 0x74]);
    match f {
        Field::Event => {},
        Field::Layer => {
            assert(field_bytes(Field::Layer)[0] != field_bytes(Field::Event)[0]);
        },
        Field::ProcessId => {},
        Field::Tcp => {},
        Field::Udp => {
            assert(field_bytes(Field::Udp)[0] != field_bytes(Field::Tcp)[0]);
        },
        Field::Ipv4 => {},
        Field::Ipv6 => {
            assert(field_bytes(Field::Ipv6)[3] != field_bytes(Field::Ipv4)[3]);
        },
        Field::LocalAddr => {
            assert(field_bytes(Field::LocalAddr)[0] != field_bytes(Field::ProcessId)[0]);
        },
        Field::RemoteAddr => {},
        Field::LocalPort => {
            assert(field_bytes(Field::LocalPort)[0] != field_bytes(Field::ProcessId)[0]);
            assert(field_bytes(Field::LocalPort)[5] != field_bytes(Field::LocalAddr)[5]);
        },
        Field::RemotePort => {
            assert(field_bytes(Field::RemotePort)[6] != field_bytes(Field::RemoteAddr)[6]);
        },
        Field::Outbound => {},
        Field::Inbound => {},
        Field::Packet => {},
    }
}


proof fn lemma_rd_field_record(b: Seq<u8>, pos: int, name: Seq<char>)
    requires
        is_field_name(name),
        0 <= pos,
        pos + name_record(encode_utf8(name)).len() <= b.len(),
        b.subrange(pos, pos + name_record(encode_utf8(name)).len()) == name_record(encode_utf8(name)),
    ensures
        rd_field(b, pos) == Ok::<(Seq<char>, int), DecodeErrorView>((name, pos + name_record(encode_utf8(name)).len())),
{
    let f = spec_field_of_name(name)->0;
    lemma_field_encoding(f);
    assert(field_name(f) == name);
    let nb = field_bytes(f);
    let rec = name_record(nb);
    lemma_auto_spec_u16_to_from_le_bytes();
    assert(b.subrange(pos, pos + 2) =~= rec.subrange(0, 2));
    assert(rec.subrange(0, 2) =~= spec_u16_to_le_bytes(nb.len() as u16));
    assert(le16_at(b, pos) == nb.len());
    assert(b.subrange(pos + 2, pos + 2 + nb.len()) =~= rec.subrange(2, rec.len() as int));
    assert(rec.subrange(2, rec.len() as int) =~= nb);
}

proof fn lemma_names_bytes_cons(x: Seq<char>, rest: Seq<Seq<char>>)
    ensures
        names_bytes(seq![x] + rest) == name_record(encode_utf8(x)) + names_bytes(rest),
    decreases rest.len(),
{
    if rest.len() == 0 {
        assert(seq![x] + rest =~= seq![x]);
        assert(seq![x].drop_last() =~= Seq::<Seq<char>>::empty());
        assert(seq![x].last() == x);
        assert(names_bytes(Seq::<Seq<char>>::empty()) == Seq::<u8>::empty());
        assert(names_bytes(seq![x]) == names_bytes(seq![x].drop_last()) + name_record(encode_utf8(x)));
        assert(names_bytes(seq![x]) =~= name_record(encode_utf8(x)));
    } else {
        lemma_names_bytes_cons(x, rest.drop_last());
        assert((seq![x] + rest).drop_last() =~= seq![x] + rest.drop_last());
        assert((seq![x] + rest).last() == rest.last());
        assert(names_bytes(seq![x] + rest) =~= name_record(encode_utf8(x)) + names_bytes(rest));
    }
}

proof fn lemma_rd_fields_names(b: Seq<u8>, pos: int, names: Seq<Seq<char>>, acc: Seq<Seq<char>>)
    requires
        forall|i: int| 0 <= i < names.len() ==> is_field_name(#[trigger] names[i]),
        0 <= pos,
        pos + names_bytes(names).len() <= b.len(),
        b.subrange(pos, pos + names_bytes(names).len()) == names_bytes(names),
    ensures
        rd_fields(b, pos, names.len(), acc) == Ok::<(Seq<Seq<char>>, int), DecodeErrorView>((acc + names, pos + names_bytes(names).len())),
    decreases names.len(),
{
    if names.len() == 0 {
        assert(acc + names =~= acc);
    } else {
        let x = names[0];
        let rest = names.subrange(1, names.len() as int);
        assert(names =~= seq![x] + rest);
        lemma_names_bytes_cons(x, rest);
        let rec = name_record(encode_utf8(x));
        let whole = names_bytes(names);
        assert(b.subrange(pos, pos + rec.len()) =~= whole.subrange(0, rec.len() as int));
        assert(whole.subrange(0, rec.len() as int) =~= rec);
        lemma_rd_field_record(b, pos, x);
        assert(b.subrange(pos + rec.len(), pos + rec.len() + names_bytes(rest).len())
            =~= whole.subrange(rec.len() as int, whole.len() as int));
        assert(whole.subrange(rec.len() as int, whole.len() as int) =~= names_bytes(rest));
        assert forall|i: int| 0 <= i < rest.len() implies is_field_name(#[trigger] rest[i]) by {
            assert(rest[i] == names[i + 1]);
        }
        lemma_rd_fields_names(b, pos + rec.len(), rest, acc.push(x));
        assert(acc.push(x) + rest =~= acc + names);
    }
}


proof fn lemma_rd_op_bytes(b: Seq<u8>, pos: int, op: OpView)
    requires
        op_encodable(op),
        0 <= pos,
        pos + op_bytes(op).len() <= b.len(),
        b.subrange(pos, pos + op_bytes(op).len()) == op_bytes(op),
    ensures
        rd_op(b, pos) == Ok::<(OpView, int), DecodeErrorView>((op, pos + op_bytes(op).len())),
{
    lemma_auto_spec_u16_to_from_le_bytes();
    lemma_auto_spec_u32_to_from_le_bytes();
    lemma_auto_spec_u64_to_from_le_bytes();
    let ob = op_bytes(op);
    assert(b[pos] == ob[0]) by {
        assert(b.subrange(pos, pos + ob.len())[0] == b[pos]);
    }
    match op {
        OpView::FieldTest { field, value } => {
            let rec = name_record(encode_utf8(field));
            let rl: int = rec.len() as int;
            assert(b.subrange(pos + 1, pos + 1 + rec.len()) =~= ob.subrange(1, 1 + rl));
            assert(ob.subrange(1, 1 + rl) =~= rec);
            lemma_rd_field_record(b, pos + 1, field);
            assert(b.subrange(pos + 1 + rec.len(), pos + 1 + rec.len() + 8) =~= ob.subrange(1 + rl, ob.len() as int));
            assert(ob.subrange(1 + rl, ob.len() as int) =~= spec_u64_to_le_bytes(value));
        },
        OpView::PacketLoad32 { offset, value } => {
            assert(b.subrange(pos + 1, pos + 3) =~= ob.subrange(1, 3));
            assert(ob.subrange(1, 3) =~= spec_u16_to_le_bytes(offset));
            assert(b.subrange(pos + 3, pos + 7) =~= ob.subrange(3, 7));
            assert(ob.subrange(3, 7) =~= spec_u32_to_le_bytes(value));
        },
        OpView::PacketLoad16 { offset, value } => {
            assert(b.subrange(pos + 1, pos + 3) =~= ob.subrange(1, 3));
            assert(ob.subrange(1, 3) =~= spec_u16_to_le_bytes(offset));
            assert(b.subrange(pos + 3, pos + 5) =~= ob.subrange(3, 5));
            assert(ob.subrange(3, 5) =~= spec_u16_to_le_bytes(value));
        },
        OpView::PacketLoad8 { offset, value } => {
            assert(b.subrange(pos + 1, pos + 3) =~= ob.subrange(1, 3));
            assert(ob.subrange(1, 3) =~= spec_u16_to_le_bytes(offset));
            assert(b[pos + 3] == ob[3]) by {
                assert(b.subrange(pos, pos + ob.len())[3] == b[pos + 3]);
            }
        },
        OpView::And => {},
        OpView::Or => {},
        OpView::Not => {},
    }
}

proof fn lemma_ops_bytes_cons(x: OpView, rest: Seq<OpView>)
    ensures
        ops_bytes(seq![x] + rest) == op_bytes(x) + ops_bytes(rest),
    decreases rest.len(),
{
    if rest.len() == 0 {
        assert(seq![x] + rest =~= seq![x]);
        assert(seq![x].drop_last() =~= Seq::<OpView>::empty());
        assert(seq![x].last() == x);
        assert(ops_bytes(Seq::<OpView>::empty()) == Seq::<u8>::empty());
        assert(ops_bytes(seq![x]) == ops_bytes(seq![x].drop_last()) + op_bytes(x));
        assert(ops_bytes(seq![x]) =~= op_bytes(x));
    } else {
        lemma_ops_bytes_cons(x, rest.drop_last());
        assert((seq![x] + rest).drop_last() =~= seq![x] + rest.drop_last());
        assert((seq![x] + rest).last() == rest.last());
        assert(ops_bytes(seq![x] + rest) =~= op_bytes(x) + ops_bytes(rest));
    }
}

proof fn lemma_rd_ops_bytes(b: Seq<u8>, pos: int, ops: Seq<OpView>, acc: Seq<OpView>)
    requires
        forall|i: int| 0 <= i < ops.len() ==> op_encodable(#[trigger] ops[i]),
        0 <= pos,
        pos + ops_bytes(ops).len() <= b.len(),
        b.subrange(pos, pos + ops_bytes(ops).len()) == ops_bytes(ops),
    ensures
        rd_ops(b, pos, ops.len(), acc) == Ok::<(Seq<OpView>, int), DecodeErrorView>((acc + ops, pos + ops_bytes(ops).len())),
    decreases ops.len(),
{
    if ops.len() == 0 {
        assert(acc + ops =~= acc);
    } else {
        let x = ops[0];
        let rest = ops.subrange(1, ops.len() as int);
        assert(ops =~= seq![x] + rest);
        lemma_ops_bytes_cons(x, rest);
        let xb = op_bytes(x);
        let whole = ops_bytes(ops);
        assert(b.subrange(pos, pos + xb.len()) =~= whole.subrange(0, xb.len() as int));
        assert(whole.subrange(0, xb.len() as int) =~= xb);
        lemma_rd_op_bytes(b, pos, x);
        assert(b.subrange(pos + xb.len(), pos + xb.len() + ops_bytes(rest).len())
            =~= whole.subrange(xb.len() as int, whole.len() as int));
        assert(whole.subrange(xb.len() as int, whole.len() as int) =~= ops_bytes(rest));
        assert forall|i: int| 0 <= i < rest.len() implies op_encodable(#[trigger] rest[i]) by {
            assert(rest[i] == ops[i + 1]);
        }
        lemma_rd_ops_bytes(b, pos + xb.len(), rest, acc.push(x));
        assert(acc.push(x) + rest =~= acc + ops);
    }
}

/// Decoding the `WDIR` bytes of a compiled filter gives that filter back,
/// for every filter whose field names are known fields, whose layer bits
/// are known and whose counts are within the decoder's limits.
pub proof fn lemma_ir_roundtrip(ir: IrView)
    requires
        ir_encodable(ir),
    ensures
        spec_decode_ir(spec_ir_bytes(ir)) matches Ok(d) && d.required_layers == ir.required_layers
            && d.needs_payload == ir.needs_payload && d.referenced_fields == ir.referenced_fields
            && d.program == ir.program,
{
    lemma_auto_spec_u16_to_from_le_bytes();
    lemma_auto_spec_u32_to_from_le_bytes();
    let b = spec_ir_bytes(ir);
    let nb = names_bytes(ir.referenced_fields);
    let ob = ops_bytes(ir.program);
    let pb = if ir.needs_payload { 1u8 } else { 0u8 };
    let hdr = ir_magic() + seq![1u8, ir.required_layers, pb] + spec_u16_to_le_bytes(ir.referenced_fields.len() as u16);
    assert(hdr.len() == 9);
    assert(b =~= hdr + nb + spec_u32_to_le_bytes(ir.program.len() as u32) + ob);
    assert(b.subrange(0, 4) =~= ir_magic());
    assert(b[4] == 1);
    assert(b[5] == ir.required_layers);
    assert(b[6] == pb);
    assert(b.subrange(7, 9) =~= spec_u16_to_le_bytes(ir.referenced_fields.len() as u16));
    assert(le16_at(b, 7) == ir.referenced_fields.len());
    assert(b.subrange(9, 9 + nb.len() as int) =~= nb);
    lemma_rd_fields_names(b, 9, ir.referenced_fields, Seq::empty());
    assert(Seq::<Seq<char>>::empty() + ir.referenced_fields =~= ir.referenced_fields);
    let p: int = 9 + nb.len() as int;
    assert(b.subrange(p, p + 4) =~= spec_u32_to_le_bytes(ir.program.len() as u32));
    assert(spec_u32_from_le_bytes(b.subrange(p, p + 4)) == ir.program.len());
    assert(b.subrange(p + 4, p + 4 + ob.len()) =~= ob);
    lemma_rd_ops_bytes(b, p + 4, ir.program, Seq::empty());
    assert(Seq::<OpView>::empty() + ir.program =~= ir.program);
    assert(p + 4 + ob.len() == b.len());
}


/// The text of a decode error.
pub open spec fn decode_error_text(e: DecodeErrorView) -> Seq<char> {
    match e {
        DecodeErrorView::InvalidMagic => "invalid WDIR magic"@,
        DecodeErrorView::UnsupportedVersion(v) => "unsupported WDIR version "@ + decimal(v as nat),
        DecodeErrorView::Truncated => "truncated WDIR payload"@,
        DecodeErrorView::InvalidLayerMask(m) => "invalid layer mask 0x"@ + hex_digits(m as nat, 2),
        DecodeErrorView::InvalidUtf8 => "invalid utf-8 in WDIR payload"@,
        DecodeErrorView::UnsupportedField(f) => "unsupported field '"@ + f + "' in WDIR payload"@,
        DecodeErrorView::UnsupportedOpcode(o) => "unsupported opcode "@ + decimal(o as nat) + " in WDIR payload"@,
        DecodeErrorView::TooManyReferencedFields(n) => "too many referenced fields in WDIR payload: "@ + decimal(n as nat),
        DecodeErrorView::ProgramTooLong(n) => "WDIR program too long: "@ + decimal(n as nat),
        DecodeErrorView::FieldByteLengthTooLarge(n) => "field byte length exceeds WDIR limit: "@ + decimal(n as nat),
    }
}

impl DecodeError {
    /// The error's text.
    pub fn to_string(&self) -> (s: String)
        ensures
            s@ == decode_error_text(self@),
    {
        match self {
            DecodeError::InvalidMagic => "invalid WDIR magic".to_owned(),
            DecodeError::UnsupportedVersion(v) => {
                let mut s = "unsupported WDIR version ".to_owned();
                push_decimal(&mut s, *v as u64);
                s
            },
            DecodeError::Truncated => "truncated WDIR payload".to_owned(),
            DecodeError::InvalidLayerMask(m) => {
                let mut s = "invalid layer mask 0x".to_owned();
                push_hex(&mut s, *m as u64, 2);
                s
            },
            DecodeError::InvalidUtf8 => "invalid utf-8 in WDIR payload".to_owned(),
            DecodeError::UnsupportedField(f) => join3("unsupported field '", f.as_str(), "' in WDIR payload"),
            DecodeError::UnsupportedOpcode(o) => {
                let mut s = "unsupported opcode ".to_owned();
                push_decimal(&mut s, *o as u64);
                s.append(" in WDIR payload");
                s
            },
            DecodeError::TooManyReferencedFields(n) => {
                let mut s = "too many referenced fields in WDIR payload: ".to_owned();
                push_decimal(&mut s, *n as u64);
                s
            },
            DecodeError::ProgramTooLong(n) => {
                let mut s = "WDIR program too long: ".to_owned();
                push_decimal(&mut s, *n as u64);
                s
            },
            DecodeError::FieldByteLengthTooLarge(n) => {
                let mut s = "field byte length exceeds WDIR limit: ".to_owned();
                push_decimal(&mut s, *n as u64);
                s
            },
        }
    }
}

} // verus!
