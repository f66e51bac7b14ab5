use crate::object::Object;
use crate::text::{
    decimal, slice_from, push_decimal, push_padded4, push_str, string_from_chars, zero_padded,
};
use crate::token::{Token, TokenV};
use vstd::prelude::*;

verus! {

/// A sequence of bytecode instructions.
#[derive(Debug, Clone, PartialEq)]
pub struct Instructions(pub Vec<u8>);

/// The output of the compiler: the instructions and the constant pool.
#[derive(Debug)]
pub struct Bytecode {
    pub instructions: Instructions,
    pub constants: Vec<Object>,
}

/// The operation codes of the virtual machine, numbered from 0 in declaration order.
#[derive(Debug, Clone, Copy, PartialEq, Eq)]
pub enum OpCode {
    OpConstant,
    OpPop,
    OpAdd,
    OpSub,
    OpMul,
    OpDiv,
    OpExponent,
    OpModulo,
    OpTrue,
    OpFalse,
    OpEquals,
    OpNotEquals,
    OpGreaterThan,
    OpGreaterEq,
    OpPrefixMinus,
    OpPrefixNot,
    OpJumpNotTruthy,
    OpJump,
    OpNil,
    OpGetGlobal,
    OpSetGlobal,
    OpArray,
    OpHash,
    OpIndex,
    OpCall,
    OpReturn,
    OpGetLocal,
    OpSetLocal,
    OpGetBuiltin,
    OpClosure,
    OpGetFree,
}

/// The number of operation codes; the valid opcode bytes are those below it.
pub const NUM_OPCODES: u8 = 31;

/// The byte that encodes an operation code.
pub open spec fn opcode_byte(op: OpCode) -> u8 {
    match op {
        OpCode::OpConstant => 0,
        OpCode::OpPop => 1,
        OpCode::OpAdd => 2,
        OpCode::OpSub => 3,
        OpCode::OpMul => 4,
        OpCode::OpDiv => 5,
        OpCode::OpExponent => 6,
        OpCode::OpModulo => 7,
        OpCode::OpTrue => 8,
        OpCode::OpFalse => 9,
        OpCode::OpEquals => 10,
        OpCode::OpNotEquals => 11,
        OpCode::OpGreaterThan => 12,
        OpCode::OpGreaterEq => 13,
        OpCode::OpPrefixMinus => 14,
        OpCode::OpPrefixNot => 15,
        OpCode::OpJumpNotTruthy => 16,
        OpCode::OpJump => 17,
        OpCode::OpNil => 18,
        OpCode::OpGetGlobal => 19,
        OpCode::OpSetGlobal => 20,
        OpCode::OpArray => 21,
        OpCode::OpHash => 22,
        OpCode::OpIndex => 23,
        OpCode::OpCall => 24,
        OpCode::OpReturn => 25,
        OpCode::OpGetLocal => 26,
        OpCode::OpSetLocal => 27,
        OpCode::OpGetBuiltin => 28,
        OpCode::OpClosure => 29,
        OpCode::OpGetFree => 30,
    }
}

/// The operation code that a valid byte encodes.
pub open spec fn opcode_of(b: u8) -> OpCode {
    if b == 0 {
        OpCode::OpConstant
    } else if b == 1 {
        OpCode::OpPop
    } else if b == 2 {
        OpCode::OpAdd
    } else if b == 3 {
        OpCode::OpSub
    } else if b == 4 {
        OpCode::OpMul
    } else if b == 5 {
        OpCode::OpDiv
    } else if b == 6 {
        OpCode::OpExponent
    } else if b == 7 {
        OpCode::OpModulo
    } else if b == 8 {
        OpCode::OpTrue
    } else if b == 9 {
        OpCode::OpFalse
    } else if b == 10 {
        OpCode::OpEquals
    } else if b == 11 {
        OpCode::OpNotEquals
    } else if b == 12 {
        OpCode::OpGreaterThan
    } else if b == 13 {
        OpCode::OpGreaterEq
    } else if b == 14 {
        OpCode::OpPrefixMinus
    } else if b == 15 {
        OpCode::OpPrefixNot
    } else if b == 16 {
        OpCode::OpJumpNotTruthy
    } else if b == 17 {
        OpCode::OpJump
    } else if b == 18 {
        OpCode::OpNil
    } else if b == 19 {
        OpCode::OpGetGlobal
    } else if b == 20 {
        OpCode::OpSetGlobal
    } else if b == 21 {
        OpCode::OpArray
    } else if b == 22 {
        OpCode::OpHash
    } else if b == 23 {
        OpCode::OpIndex
    } else if b == 24 {
        OpCode::OpCall
    } else if b == 25 {
        OpCode::OpReturn
    } else if b == 26 {
        OpCode::OpGetLocal
    } else if b == 27 {
        OpCode::OpSetLocal
    } else if b == 28 {
        OpCode::OpGetBuiltin
    } else if b == 29 {
        OpCode::OpClosure
    } else {
        OpCode::OpGetFree
    }
}

/// The widths, in bytes, of the operands of an instruction.
pub open spec fn operand_widths_spec(op: OpCode) -> Seq<usize> {
    match op {
        OpCode::OpConstant => seq![2],
        OpCode::OpPop => seq![],
        OpCode::OpAdd => seq![],
        OpCode::OpSub => seq![],
        OpCode::OpMul => seq![],
        OpCode::OpDiv => seq![],
        OpCode::OpExponent => seq![],
        OpCode::OpModulo => seq![],
        OpCode::OpTrue => seq![],
        OpCode::OpFalse => seq![],
        OpCode::OpEquals => seq![],
        OpCode::OpNotEquals => seq![],
        OpCode::OpGreaterThan => seq![],
        OpCode::OpGreaterEq => seq![],
        OpCode::OpPrefixMinus => seq![],
        OpCode::OpPrefixNot => seq![],
        OpCode::OpJumpNotTruthy => seq![2],
        OpCode::OpJump => seq![2],
        OpCode::OpNil => seq![],
        OpCode::OpGetGlobal => seq![2],
        OpCode::OpSetGlobal => seq![2],
        OpCode::OpArray => seq![2],
        OpCode::OpHash => seq![2],
        OpCode::OpIndex => seq![],
        OpCode::OpCall => seq![1],
        OpCode::OpReturn => seq![],
        OpCode::OpGetLocal => seq![1],
        OpCode::OpSetLocal => seq![1],
        OpCode::OpGetBuiltin => seq![1],
        OpCode::OpClosure => seq![2, 1],
        OpCode::OpGetFree => seq![1],
    }
}

/// The name of an operation code, as instruction listings print it.
pub open spec fn opcode_name(op: OpCode) -> Seq<char> {
    match op {
        OpCode::OpConstant => "OpConstant"@,
        OpCode::OpPop => "OpPop"@,
        OpCode::OpAdd => "OpAdd"@,
        OpCode::OpSub => "OpSub"@,
        OpCode::OpMul => "OpMul"@,
        OpCode::OpDiv => "OpDiv"@,
        OpCode::OpExponent => "OpExponent"@,
        OpCode::OpModulo => "OpModulo"@,
        OpCode::OpTrue => "OpTrue"@,
        OpCode::OpFalse => "OpFalse"@,
        OpCode::OpEquals => "OpEquals"@,
        OpCode::OpNotEquals => "OpNotEquals"@,
        OpCode::OpGreaterThan => "OpGreaterThan"@,
        OpCode::OpGreaterEq => "OpGreaterEq"@,
        OpCode::OpPrefixMinus => "OpPrefixMinus"@,
        OpCode::OpPrefixNot => "OpPrefixNot"@,
        OpCode::OpJumpNotTruthy => "OpJumpNotTruthy"@,
        OpCode::OpJump => "OpJump"@,
        OpCode::OpNil => "OpNil"@,
        OpCode::OpGetGlobal => "OpGetGlobal"@,
        OpCode::OpSetGlobal => "OpSetGlobal"@,
        OpCode::OpArray => "OpArray"@,
        OpCode::OpHash => "OpHash"@,
        OpCode::OpIndex => "OpIndex"@,
        OpCode::OpCall => "OpCall"@,
        OpCode::OpReturn => "OpReturn"@,
        OpCode::OpGetLocal => "OpGetLocal"@,
        OpCode::OpSetLocal => "OpSetLocal"@,
        OpCode::OpGetBuiltin => "OpGetBuiltin"@,
        OpCode::OpClosure => "OpClosure"@,
        OpCode::OpGetFree => "OpGetFree"@,
    }
}

/// The operator token that an arithmetic, comparison or prefix operation code stands for.
pub open spec fn equivalent_token_spec(op: OpCode) -> Option<TokenV> {
    match op {
        OpCode::OpAdd => Some(TokenV::Plus),
        OpCode::OpSub => Some(TokenV::Minus),
        OpCode::OpMul => Some(TokenV::Asterisk),
        OpCode::OpDiv => Some(TokenV::Slash),
        OpCode::OpExponent => Some(TokenV::Exponent),
        OpCode::OpModulo => Some(TokenV::Modulo),
        OpCode::OpEquals => Some(TokenV::Equals),
        OpCode::OpNotEquals => Some(TokenV::NotEquals),
        OpCode::OpGreaterThan => Some(TokenV::GreaterThan),
        OpCode::OpGreaterEq => Some(TokenV::GreaterEq),
        OpCode::OpPrefixMinus => Some(TokenV::Minus),
        OpCode::OpPrefixNot => Some(TokenV::Bang),
        _ => None,
    }
}

impl OpCode {
    /// The byte that encodes this operation code.
    pub fn to_byte(self) -> (r: u8)
        ensures
            r == opcode_byte(self),
            r < NUM_OPCODES,
    {
        match self {
            OpCode::OpConstant => 0,
            OpCode::OpPop => 1,
            OpCode::OpAdd => 2,
            OpCode::OpSub => 3,
            OpCode::OpMul => 4,
            OpCode::OpDiv => 5,
            OpCode::OpExponent => 6,
            OpCode::OpModulo => 7,
            OpCode::OpTrue => 8,
            OpCode::OpFalse => 9,
            OpCode::OpEquals => 10,
            OpCode::OpNotEquals => 11,
            OpCode::OpGreaterThan => 12,
            OpCode::OpGreaterEq => 13,
            OpCode::OpPrefixMinus => 14,
            OpCode::OpPrefixNot => 15,
            OpCode::OpJumpNotTruthy => 16,
            OpCode::OpJump => 17,
            OpCode::OpNil => 18,
            OpCode::OpGetGlobal => 19,
            OpCode::OpSetGlobal => 20,
            OpCode::OpArray => 21,
            OpCode::OpHash => 22,
            OpCode::OpIndex => 23,
            OpCode::OpCall => 24,
            OpCode::OpReturn => 25,
            OpCode::OpGetLocal => 26,
            OpCode::OpSetLocal => 27,
            OpCode::OpGetBuiltin => 28,
            OpCode::OpClosure => 29,
            OpCode::OpGetFree => 30,
        }
    }

    /// The widths, in bytes, of the operands of an instruction with this operation code.
    pub fn operand_widths(self) -> (r: Vec<usize>)
        ensures
            r@ == operand_widths_spec(self),
    {
        match self {
            OpCode::OpConstant => vec![2],
            OpCode::OpPop => Vec::new(),
            OpCode::OpAdd => Vec::new(),
            OpCode::OpSub => Vec::new(),
            OpCode::OpMul => Vec::new(),
            OpCode::OpDiv => Vec::new(),
            OpCode::OpExponent => Vec::new(),
            OpCode::OpModulo => Vec::new(),
            OpCode::OpTrue => Vec::new(),
            OpCode::OpFalse => Vec::new(),
            OpCode::OpEquals => Vec::new(),
            OpCode::OpNotEquals => Vec::new(),
            OpCode::OpGreaterThan => Vec::new(),
            OpCode::OpGreaterEq => Vec::new(),
            OpCode::OpPrefixMinus => Vec::new(),
            OpCode::OpPrefixNot => Vec::new(),
            OpCode::OpJumpNotTruthy => vec![2],
            OpCode::OpJump => vec![2],
            OpCode::OpNil => Vec::new(),
            OpCode::OpGetGlobal => vec![2],
            OpCode::OpSetGlobal => vec![2],
            OpCode::OpArray => vec![2],
            OpCode::OpHash => vec![2],
            OpCode::OpIndex => Vec::new(),
            OpCode::OpCall => vec![1],
            OpCode::OpReturn => Vec::new(),
            OpCode::OpGetLocal => vec![1],
            OpCode::OpSetLocal => vec![1],
            OpCode::OpGetBuiltin => vec![1],
            OpCode::OpClosure => vec![2, 1],
            OpCode::OpGetFree => vec![1],
        }
    }

    /// The operation code that a byte encodes; the byte must encode one.
    pub fn from_byte(byte: u8) -> (r: OpCode)
        requires
            byte < NUM_OPCODES,
        ensures
            r == opcode_of(byte),
            opcode_byte(r) == byte,
    {
        if byte == 0 {
            OpCode::OpConstant
        } else if byte == 1 {
            OpCode::OpPop
        } else if byte == 2 {
            OpCode::OpAdd
        } else if byte == 3 {
            OpCode::OpSub
        } else if byte == 4 {
            OpCode::OpMul
        } else if byte == 5 {
            OpCode::OpDiv
        } else if byte == 6 {
            OpCode::OpExponent
        } else if byte == 7 {
            OpCode::OpModulo
        } else if byte == 8 {
            OpCode::OpTrue
        } else if byte == 9 {
            OpCode::OpFalse
        } else if byte == 10 {
            OpCode::OpEquals
        } else if byte == 11 {
            OpCode::OpNotEquals
        } else if byte == 12 {
            OpCode::OpGreaterThan
        } else if byte == 13 {
            OpCode::OpGreaterEq
        } else if byte == 14 {
            OpCode::OpPrefixMinus
        } else if byte == 15 {
            OpCode::OpPrefixNot
        } else if byte == 16 {
            OpCode::OpJumpNotTruthy
        } else if byte == 17 {
            OpCode::OpJump
        } else if byte == 18 {
            OpCode::OpNil
        } else if byte == 19 {
            OpCode::OpGetGlobal
        } else if byte == 20 {
            OpCode::OpSetGlobal
        } else if byte == 21 {
            OpCode::OpArray
        } else if byte == 22 {
            OpCode::OpHash
        } else if byte == 23 {
            OpCode::OpIndex
        } else if byte == 24 {
            OpCode::OpCall
        } else if byte == 25 {
            OpCode::OpReturn
        } else if byte == 26 {
            OpCode::OpGetLocal
        } else if byte == 27 {
            OpCode::OpSetLocal
        } else if byte == 28 {
            OpCode::OpGetBuiltin
        } else if byte == 29 {
            OpCode::OpClosure
        } else {
            OpCode::OpGetFree
        }
    }

    /// The operator token that this operation code stands for, if any.
    pub fn equivalent_token(self) -> (r: Option<Token>)
        ensures
            match equivalent_token_spec(self) {
                Some(t) => r is Some && r->Some_0@ == t,
                None => r is None,
            },
    {
        match self {
            OpCode::OpAdd => Some(Token::Plus),
            OpCode::OpSub => Some(Token::Minus),
            OpCode::OpMul => Some(Token::Asterisk),
            OpCode::OpDiv => Some(Token::Slash),
            OpCode::OpExponent => Some(Token::Exponent),
            OpCode::OpModulo => Some(Token::Modulo),
            OpCode::OpEquals => Some(Token::Equals),
            OpCode::OpNotEquals => Some(Token::NotEquals),
            OpCode::OpGreaterThan => Some(Token::GreaterThan),
            OpCode::OpGreaterEq => Some(Token::GreaterEq),
            OpCode::OpPrefixMinus => Some(Token::Minus),
            OpCode::OpPrefixNot => Some(Token::Bang),
            _ => None,
        }
    }

    /// The name of this operation code.
    pub fn name(self) -> (r: &'static str)
        ensures
            r@ == opcode_name(self),
    {
        match self {
            OpCode::OpConstant => "OpConstant",
            OpCode::OpPop => "OpPop",
            OpCode::OpAdd => "OpAdd",
            OpCode::OpSub => "OpSub",
            OpCode::OpMul => "OpMul",
            OpCode::OpDiv => "OpDiv",
            OpCode::OpExponent => "OpExponent",
            OpCode::OpModulo => "OpModulo",
            OpCode::OpTrue => "OpTrue",
            OpCode::OpFalse => "OpFalse",
            OpCode::OpEquals => "OpEquals",
            OpCode::OpNotEquals => "OpNotEquals",
            OpCode::OpGreaterThan => "OpGreaterThan",
            OpCode::OpGreaterEq => "OpGreaterEq",
            OpCode::OpPrefixMinus => "OpPrefixMinus",
            OpCode::OpPrefixNot => "OpPrefixNot",
            OpCode::OpJumpNotTruthy => "OpJumpNotTruthy",
            OpCode::OpJump => "OpJump",
            OpCode::OpNil => "OpNil",
            OpCode::OpGetGlobal => "OpGetGlobal",
            OpCode::OpSetGlobal => "OpSetGlobal",
            OpCode::OpArray => "OpArray",
            OpCode::OpHash => "OpHash",
            OpCode::OpIndex => "OpIndex",
            OpCode::OpCall => "OpCall",
            OpCode::OpReturn => "OpReturn",
            OpCode::OpGetLocal => "OpGetLocal",
            OpCode::OpSetLocal => "OpSetLocal",
            OpCode::OpGetBuiltin => "OpGetBuiltin",
            OpCode::OpClosure => "OpClosure",
            OpCode::OpGetFree => "OpGetFree",
        }
    }
}

} // verus!

verus! {

/// The bytes of one operand of the given width: one byte, or two in big-endian order. Like
/// the `as u8` and `as u16` casts, only the low bits of the operand are kept.
pub open spec fn encode_operand(width: usize, operand: usize) -> Seq<u8> {
    if width == 1 {
        seq![(operand % 256) as u8]
    } else {
        seq![((operand % 65536) / 256) as u8, (operand % 256) as u8]
    }
}

pub open spec fn encode_operands(widths: Seq<usize>, operands: Seq<usize>) -> Seq<u8>
    decreases widths.len(),
{
    if widths.len() == 0 || operands.len() == 0 {
        seq![]
    } else {
        encode_operand(widths[0], operands[0]) + encode_operands(widths.skip(1), operands.skip(1))
    }
}

/// The bytes of the instruction `op` with the given operands.
pub open spec fn make_spec(op: OpCode, operands: Seq<usize>) -> Seq<u8> {
    seq![opcode_byte(op)] + encode_operands(operand_widths_spec(op), operands)
}

/// The sum of a sequence of widths.
pub open spec fn total_width(widths: Seq<usize>) -> nat
    decreases widths.len(),
{
    if widths.len() == 0 {
        0
    } else {
        widths[0] as nat + total_width(widths.skip(1))
    }
}

/// The operand of the given width stored at `offset`.
pub open spec fn read_operand(width: usize, ins: Seq<u8>, offset: int) -> usize {
    if width == 1 {
        ins[offset] as usize
    } else {
        (ins[offset] * 256 + ins[offset + 1]) as usize
    }
}

/// The operands stored from `offset` on, read with the given widths.
pub open spec fn decode_operands(widths: Seq<usize>, ins: Seq<u8>, offset: int) -> Seq<usize>
    decreases widths.len(),
{
    if widths.len() == 0 {
        seq![]
    } else {
        seq![read_operand(widths[0], ins, offset)] + decode_operands(
            widths.skip(1),
            ins,
            offset + widths[0],
        )
    }
}

/// The largest value that an operand of the given width can hold, plus one.
pub open spec fn operand_limit(width: usize) -> int {
    if width == 1 {
        256
    } else {
        65536
    }
}

/// Whether the instructions, from `pc` on, are a sequence of whole instructions with valid
/// operation codes.
pub open spec fn decodes_from(ins: Seq<u8>, pc: int) -> bool
    decreases ins.len() - pc,
{
    if pc < 0 || pc > ins.len() {
        false
    } else if pc == ins.len() {
        true
    } else {
        let b = ins[pc];
        b < NUM_OPCODES && {
            let next = pc + 1 + total_width(operand_widths_spec(opcode_of(b)));
            next <= ins.len() && decodes_from(ins, next)
        }
    }
}

/// The text of the operands, each preceded by a space.
pub open spec fn operands_text(operands: Seq<usize>) -> Seq<char>
    decreases operands.len(),
{
    if operands.len() == 0 {
        seq![]
    } else {
        seq![' '] + decimal(operands[0] as nat) + operands_text(operands.skip(1))
    }
}

/// The listing of the instructions from `pc` on: one line per instruction, with its offset, its
/// name, and its operands.
pub open spec fn listing_from(ins: Seq<u8>, pc: int) -> Seq<char>
    decreases ins.len() - pc,
{
    if pc < 0 || pc >= ins.len() || ins[pc] >= NUM_OPCODES {
        seq![]
    } else {
        let op = opcode_of(ins[pc]);
        let ws = operand_widths_spec(op);
        let next = pc + 1 + total_width(ws);
        if next > ins.len() {
            seq![]
        } else {
            zero_padded(pc as nat, 4) + seq![' '] + opcode_name(op) + operands_text(
                decode_operands(ws, ins, pc + 1),
            ) + seq!['\n'] + listing_from(ins, next)
        }
    }
}

pub proof fn lemma_widths_facts(op: OpCode)
    ensures
        operand_widths_spec(op).len() <= 2,
        forall|i: int|
            0 <= i < operand_widths_spec(op).len() ==> #[trigger] operand_widths_spec(op)[i]
                == 1 || operand_widths_spec(op)[i] == 2,
        total_width(operand_widths_spec(op)) <= 3,
        total_width(operand_widths_spec(op)) >= 0,
{
    let ws = operand_widths_spec(op);
    reveal_with_fuel(total_width, 3);
    if ws.len() == 1 {
        assert(ws.skip(1).len() == 0);
        assert(total_width(ws) == ws[0]);
    } else if ws.len() == 2 {
        assert(ws.skip(1).skip(1).len() == 0);
        assert(ws.skip(1)[0] == ws[1]);
        assert(total_width(ws) == ws[0] + ws[1]);
    }
}

proof fn lemma_u16_split(x: int)
    requires
        0 <= x < 65536,
    ensures
        ((x % 65536) / 256) * 256 + x % 256 == x,
        0 <= (x % 65536) / 256 < 256,
        0 <= x % 256 < 256,
{
    assert(x % 65536 == x);
    assert((x / 256) * 256 + x % 256 == x) by (nonlinear_arith)
        requires
            0 <= x,
    ;
    assert(0 <= x / 256 < 256) by (nonlinear_arith)
        requires
            0 <= x < 65536,
    ;
}

/// Encodes an instruction. The number of operands must match the operation code.
pub fn make(op: OpCode, operands: &[usize]) -> (r: Vec<u8>)
    requires
        operands@.len() == operand_widths_spec(op).len(),
    ensures
        r@ == make_spec(op, operands@),
        r@.len() == 1 + total_width(operand_widths_spec(op)),
{
    let widths = op.operand_widths();
    proof {
        lemma_widths_facts(op);
    }
    let mut instruction: Vec<u8> = Vec::new();
    instruction.push(op.to_byte());
    let mut i: usize = 0;
    assert(widths@.skip(0) =~= widths@);
    assert(operands@.skip(0) =~= operands@);
    while i < widths.len()
        invariant
            widths@ == operand_widths_spec(op),
            widths@.len() <= 2,
            forall|k: int| 0 <= k < widths@.len() ==> #[trigger] widths@[k] == 1 || widths@[k] == 2,
            operands@.len() == widths@.len(),
            i <= widths@.len(),
            instruction@ + encode_operands(widths@.skip(i as int), operands@.skip(i as int))
                == make_spec(op, operands@),
            instruction@.len() + total_width(widths@.skip(i as int)) == 1 + total_width(widths@),
        decreases widths@.len() - i,
    {
        let operand = operands[i];
        assert(widths@.skip(i as int).skip(1) =~= widths@.skip(i + 1));
        assert(operands@.skip(i as int).skip(1) =~= operands@.skip(i + 1));
        if widths[i] == 1 {
            instruction.push((operand % 256) as u8);
        } else {
            instruction.push(((operand % 65536) / 256) as u8);
            instruction.push((operand % 256) as u8);
        }
        proof {
            let enc = encode_operand(widths@[i as int], operand);
            assert(encode_operands(widths@.skip(i as int), operands@.skip(i as int)) == enc
                + encode_operands(widths@.skip(i + 1), operands@.skip(i + 1)));
        }
        i = i + 1;
        assert(instruction@ + encode_operands(widths@.skip(i as int), operands@.skip(i as int))
            =~= make_spec(op, operands@));
    }
    instruction
}

/// Reads the operands of an instruction with operation code `op` from the bytes that follow
/// it; returns them and the number of bytes they take.
pub fn read_operands(op: OpCode, instructions: &[u8]) -> (r: (Vec<usize>, usize))
    requires
        instructions@.len() >= total_width(operand_widths_spec(op)),
    ensures
        r.0@ == decode_operands(operand_widths_spec(op), instructions@, 0),
        r.1 == total_width(operand_widths_spec(op)),
{
    let widths = op.operand_widths();
    proof {
        lemma_widths_facts(op);
    }
    let mut operands: Vec<usize> = Vec::new();
    let mut offset: usize = 0;
    let mut i: usize = 0;
    assert(widths@.skip(0) =~= widths@);
    while i < widths.len()
        invariant
            widths@ == operand_widths_spec(op),
            widths@.len() <= 2,
            forall|k: int| 0 <= k < widths@.len() ==> #[trigger] widths@[k] == 1 || widths@[k] == 2,
            instructions@.len() >= total_width(widths@),
            i <= widths@.len(),
            offset <= 3,
            offset + total_width(widths@.skip(i as int)) == total_width(widths@),
            total_width(widths@.skip(i as int)) >= 0,
            operands@ + decode_operands(widths@.skip(i as int), instructions@, offset as int)
                == decode_operands(widths@, instructions@, 0),
        decreases widths@.len() - i,
    {
        assert(widths@.skip(i as int).skip(1) =~= widths@.skip(i + 1));
        proof {
            lemma_total_width_nonneg(widths@.skip(i + 1));
        }
        let width = widths[i];
        if width == 1 {
            operands.push(instructions[offset] as usize);
        } else {
            let operand = read_u16(slice_from(instructions, offset)) as usize;
            operands.push(operand);
        }
        offset = offset + width;
        i = i + 1;
        assert(operands@ + decode_operands(widths@.skip(i as int), instructions@, offset as int)
            =~= decode_operands(widths@, instructions@, 0));
    }
    (operands, offset)
}

proof fn lemma_total_width_nonneg(ws: Seq<usize>)
    ensures
        total_width(ws) >= 0,
    decreases ws.len(),
{
    if ws.len() > 0 {
        lemma_total_width_nonneg(ws.skip(1));
    }
}

/// Reads a big-endian 16-bit number from the first two bytes.
pub fn read_u16(instructions: &[u8]) -> (r: u16)
    requires
        instructions@.len() >= 2,
    ensures
        r == instructions@[0] * 256 + instructions@[1],
{
    (instructions[0] as u16) * 256 + (instructions[1] as u16)
}

/// Law: reading back the operands of an instruction built by `make` gives the operands, and the
/// number of bytes read is the length of the instruction after its operation code, provided each
/// operand fits in its width.
pub proof fn lemma_make_read_roundtrip(op: OpCode, operands: Seq<usize>)
    requires
        operands.len() == operand_widths_spec(op).len(),
        forall|i: int|
            0 <= i < operands.len() ==> #[trigger] operands[i] < operand_limit(
                operand_widths_spec(op)[i],
            ),
    ensures
        ({
            let ins = make_spec(op, operands).skip(1);
            &&& ins.len() == total_width(operand_widths_spec(op))
            &&& decode_operands(operand_widths_spec(op), ins, 0) == operands
        }),
{
    lemma_widths_facts(op);
    let ws = operand_widths_spec(op);
    let ins = make_spec(op, operands).skip(1);
    assert(ins =~= encode_operands(ws, operands));
    reveal_with_fuel(encode_operands, 3);
    reveal_with_fuel(decode_operands, 3);
    reveal_with_fuel(total_width, 3);
    if ws.len() == 0 {
        assert(operands =~= seq![]);
    } else if ws.len() == 1 {
        assert(ws.skip(1).len() == 0);
        assert(operands.skip(1).len() == 0);
        let o = operands[0];
        assert(ins =~= encode_operand(ws[0], o));
        if ws[0] == 2 {
            lemma_u16_split(o as int);
        }
        assert(decode_operands(ws.skip(1), ins, ws[0] as int) =~= seq![]);
        assert(decode_operands(ws, ins, 0) =~= operands);
    } else {
        assert(ws.skip(1).skip(1).len() == 0);
        assert(ws[0] == 2 && ws[1] == 1);
        assert(operands.skip(1).skip(1).len() == 0);
        let o0 = operands[0];
        let o1 = operands[1];
        assert(operands.skip(1)[0] == o1);
        assert(ws.skip(1)[0] == 1);
        lemma_u16_split(o0 as int);
        assert(ins =~= encode_operand(2, o0) + encode_operand(1, o1));
        assert(decode_operands(ws.skip(1).skip(1), ins, 3) =~= seq![]);
        assert(decode_operands(ws.skip(1), ins, 2) =~= seq![o1]);
        assert(decode_operands(ws, ins, 0) =~= operands);
    }
}

impl Instructions {
    /// Whether these instructions are a sequence of whole instructions with valid operation
    /// codes.
    pub open spec fn decodes(&self) -> bool {
        decodes_from(self.0@, 0)
    }

    /// The listing of the instructions, one line per instruction: its offset padded to four
    /// digits, the name of its operation code, and its operands.
    pub fn to_string(&self) -> (r: String)
        requires
            self.decodes(),
        ensures
            r@ == listing_from(self.0@, 0),
    {
        let ins = &self.0;
        let mut out: Vec<char> = Vec::new();
        let mut pc: usize = 0;
        while pc < ins.len()
            invariant
                decodes_from(ins@, pc as int),
                pc <= ins@.len(),
                out@ + listing_from(ins@, pc as int) == listing_from(ins@, 0),
            decreases ins@.len() - pc,
        {
            let op = OpCode::from_byte(ins[pc]);
            proof {
                lemma_widths_facts(op);
            }
            let (operands, read) = read_operands(op, slice_from(ins.as_slice(), pc + 1));
            let ghost line_operands = decode_operands(operand_widths_spec(op), ins@, pc + 1);
            proof {
                lemma_decode_shift(operand_widths_spec(op), ins@, pc + 1);
            }
            assert(operands@ == line_operands);
            let ghost before = out@;
            push_padded4(&mut out, pc as u64);
            out.push(' ');
            push_str(&mut out, op.name());
            assert(operands@.skip(0) =~= operands@);
            let mut k: usize = 0;
            while k < operands.len()
                invariant
                    k <= operands@.len(),
                    out@ + operands_text(operands@.skip(k as int)) == before + zero_padded(
                        pc as nat,
                        4,
                    ) + seq![' '] + opcode_name(op) + operands_text(operands@),
                decreases operands@.len() - k,
            {
                assert(operands@.skip(k as int).skip(1) =~= operands@.skip(k + 1));
                out.push(' ');
                push_decimal(&mut out, operands[k] as u64);
                k = k + 1;
                assert(out@ + operands_text(operands@.skip(k as int)) =~= before + zero_padded(
                    pc as nat,
                    4,
                ) + seq![' '] + opcode_name(op) + operands_text(operands@));
            }
            assert(operands@.skip(k as int) =~= seq![]);
            out.push('\n');
            pc = pc + 1 + read;
            assert(out@ + listing_from(ins@, pc as int) =~= listing_from(ins@, 0));
        }
        string_from_chars(&out)
    }
}

/// Decoding from a suffix of the bytes is decoding from the whole at a shifted offset.
proof fn lemma_decode_shift(ws: Seq<usize>, ins: Seq<u8>, start: int)
    requires
        0 <= start <= ins.len(),
        start + total_width(ws) <= ins.len(),
        forall|i: int| 0 <= i < ws.len() ==> #[trigger] ws[i] == 1 || ws[i] == 2,
    ensures
        decode_operands(ws, ins.subrange(start, ins.len() as int), 0) == decode_operands(
            ws,
            ins,
            start,
        ),
    decreases ws.len(),
{
    lemma_decode_shift_at(ws, ins, start, 0);
}

proof fn lemma_decode_shift_at(ws: Seq<usize>, ins: Seq<u8>, start: int, off: int)
    requires
        0 <= start <= ins.len(),
        0 <= off,
        start + off + total_width(ws) <= ins.len(),
        forall|i: int| 0 <= i < ws.len() ==> #[trigger] ws[i] == 1 || ws[i] == 2,
    ensures
        decode_operands(ws, ins.subrange(start, ins.len() as int), off) == decode_operands(
            ws,
            ins,
            start + off,
        ),
    decreases ws.len(),
{
    if ws.len() > 0 {
        assert(ws[0] == 1 || ws[0] == 2);
        lemma_total_width_nonneg(ws.skip(1));
        assert forall|i: int| 0 <= i < ws.skip(1).len() implies #[trigger] ws.skip(1)[i] == 1
            || ws.skip(1)[i] == 2 by {
            assert(ws.skip(1)[i] == ws[i + 1]);
        }
        lemma_decode_shift_at(ws.skip(1), ins, start, off + ws[0]);
    }
}

} // verus!
