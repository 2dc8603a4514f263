//! Instructions of the virtual machine and the table that decodes them.

use vstd::prelude::*;

verus! {

/// An instruction, decoded from its byte in the code.
///
/// `PUSH(n)` is followed in the code by `n` bytes of immediate data, which are
/// not instructions. `DUP(n)`, `SWAP(n)` and `LOG(n)` carry the depth or the
/// topic count that their byte stands for.
#[derive(Clone, Copy, Debug, PartialEq, Eq, Structural)]
pub enum Opcode {
    STOP,
    ADD,
    MUL,
    SUB,
    DIV,
    SDIV,
    MOD,
    SMOD,
    ADDMOD,
    MULMOD,
    EXP,
    SIGNEXTEND,
    LT,
    GT,
    SLT,
    SGT,
    EQ,
    ISZERO,
    AND,
    OR,
    XOR,
    NOT,
    BYTE,
    SHA3,
    ADDRESS,
    BALANCE,
    ORIGIN,
    CALLER,
    CALLVALUE,
    CALLDATALOAD,
    CALLDATASIZE,
    CALLDATACOPY,
    CODESIZE,
    CODECOPY,
    GASPRICE,
    EXTCODESIZE,
    EXTCODECOPY,
    BLOCKHASH,
    COINBASE,
    TIMESTAMP,
    NUMBER,
    DIFFICULTY,
    GASLIMIT,
    POP,
    MLOAD,
    MSTORE,
    MSTORE8,
    SLOAD,
    SSTORE,
    JUMP,
    JUMPI,
    PC,
    MSIZE,
    GAS,
    JUMPDEST,
    PUSH(usize),
    DUP(usize),
    SWAP(usize),
    LOG(usize),
    CREATE,
    CALL,
    CALLCODE,
    RETURN,
    DELEGATECALL,
    INVALID,
    SUICIDE,
}

/// The instruction that a byte of code stands for. Bytes to which the machine
/// assigns no instruction decode to `INVALID`.
pub open spec fn decode(byte: u8) -> Opcode {
    if 0x60 <= byte <= 0x7f {
        Opcode::PUSH((byte - 0x5f) as usize)
    } else if 0x80 <= byte <= 0x8f {
        Opcode::DUP((byte - 0x7f) as usize)
    } else if 0x90 <= byte <= 0x9f {
        Opcode::SWAP((byte - 0x8f) as usize)
    } else if 0xa0 <= byte <= 0xa4 {
        Opcode::LOG((byte - 0xa0) as usize)
    } else {
        decode_plain(byte)
    }
}

/// The decoding table for the bytes that carry no number of their own.
pub open spec fn decode_plain(byte: u8) -> Opcode {
    match byte {
        0x00 => Opcode::STOP,
        0x01 => Opcode::ADD,
        0x02 => Opcode::MUL,
        0x03 => Opcode::SUB,
        0x04 => Opcode::DIV,
        0x05 => Opcode::SDIV,
        0x06 => Opcode::MOD,
        0x07 => Opcode::SMOD,
        0x08 => Opcode::ADDMOD,
        0x09 => Opcode::MULMOD,
        0x0a => Opcode::EXP,
        0x0b => Opcode::SIGNEXTEND,
        0x10 => Opcode::LT,
        0x11 => Opcode::GT,
        0x12 => Opcode::SLT,
        0x13 => Opcode::SGT,
        0x14 => Opcode::EQ,
        0x15 => Opcode::ISZERO,
        0x16 => Opcode::AND,
        0x17 => Opcode::OR,
        0x18 => Opcode::XOR,
        0x19 => Opcode::NOT,
        0x1a => Opcode::BYTE,
        0x20 => Opcode::SHA3,
        0x30 => Opcode::ADDRESS,
        0x31 => Opcode::BALANCE,
        0x32 => Opcode::ORIGIN,
        0x33 => Opcode::CALLER,
        0x34 => Opcode::CALLVALUE,
        0x35 => Opcode::CALLDATALOAD,
        0x36 => Opcode::CALLDATASIZE,
        0x37 => Opcode::CALLDATACOPY,
        0x38 => Opcode::CODESIZE,
        0x39 => Opcode::CODECOPY,
        0x3a => Opcode::GASPRICE,
        0x3b => Opcode::EXTCODESIZE,
        0x3c => Opcode::EXTCODECOPY,
        0x40 => Opcode::BLOCKHASH,
        0x41 => Opcode::COINBASE,
        0x42 => Opcode::TIMESTAMP,
        0x43 => Opcode::NUMBER,
        0x44 => Opcode::DIFFICULTY,
        0x45 => Opcode::GASLIMIT,
        0x50 => Opcode::POP,
        0x51 => Opcode::MLOAD,
        0x52 => Opcode::MSTORE,
        0x53 => Opcode::MSTORE8,
        0x54 => Opcode::SLOAD,
        0x55 => Opcode::SSTORE,
        0x56 => Opcode::JUMP,
        0x57 => Opcode::JUMPI,
        0x58 => Opcode::PC,
        0x59 => Opcode::MSIZE,
        0x5a => Opcode::GAS,
        0x5b => Opcode::JUMPDEST,
        0xf0 => Opcode::CREATE,
        0xf1 => Opcode::CALL,
        0xf2 => Opcode::CALLCODE,
        0xf3 => Opcode::RETURN,
        0xf4 => Opcode::DELEGATECALL,
        0xff => Opcode::SUICIDE,
        _ => Opcode::INVALID,
    }
}

impl Opcode {
    /// Number of bytes of immediate data that follow the instruction in the
    /// code: `n` for `PUSH(n)`, none for every other instruction.
    pub open spec fn immediate_len(self) -> nat {
        match self {
            Opcode::PUSH(n) => n as nat,
            _ => 0,
        }
    }
}

impl From<u8> for Opcode {
    /// Decodes one byte of code.
    fn from(byte: u8) -> (op: Opcode) {
        if 0x60 <= byte && byte <= 0x7f {
            return Opcode::PUSH((byte - 0x5f) as usize);
        }
        if 0x80 <= byte && byte <= 0x8f {
            return Opcode::DUP((byte - 0x7f) as usize);
        }
        if 0x90 <= byte && byte <= 0x9f {
            return Opcode::SWAP((byte - 0x8f) as usize);
        }
        if 0xa0 <= byte && byte <= 0xa4 {
            return Opcode::LOG((byte - 0xa0) as usize);
        }
        match byte {
            0x00 => Opcode::STOP,
            0x01 => Opcode::ADD,
            0x02 => Opcode::MUL,
            0x03 => Opcode::SUB,
            0x04 => Opcode::DIV,
            0x05 => Opcode::SDIV,
            0x06 => Opcode::MOD,
            0x07 => Opcode::SMOD,
            0x08 => Opcode::ADDMOD,
            0x09 => Opcode::MULMOD,
            0x0a => Opcode::EXP,
            0x0b => Opcode::SIGNEXTEND,
            0x10 => Opcode::LT,
            0x11 => Opcode::GT,
            0x12 => Opcode::SLT,
            0x13 => Opcode::SGT,
            0x14 => Opcode::EQ,
            0x15 => Opcode::ISZERO,
            0x16 => Opcode::AND,
            0x17 => Opcode::OR,
            0x18 => Opcode::XOR,
            0x19 => Opcode::NOT,
            0x1a => Opcode::BYTE,
            0x20 => Opcode::SHA3,
            0x30 => Opcode::ADDRESS,
            0x31 => Opcode::BALANCE,
            0x32 => Opcode::ORIGIN,
            0x33 => Opcode::CALLER,
            0x34 => Opcode::CALLVALUE,
            0x35 => Opcode::CALLDATALOAD,
            0x36 => Opcode::CALLDATASIZE,
            0x37 => Opcode::CALLDATACOPY,
            0x38 => Opcode::CODESIZE,
            0x39 => Opcode::CODECOPY,
            0x3a => Opcode::GASPRICE,
            0x3b => Opcode::EXTCODESIZE,
            0x3c => Opcode::EXTCODECOPY,
            0x40 => Opcode::BLOCKHASH,
            0x41 => Opcode::COINBASE,
            0x42 => Opcode::TIMESTAMP,
            0x43 => Opcode::NUMBER,
            0x44 => Opcode::DIFFICULTY,
            0x45 => Opcode::GASLIMIT,
            0x50 => Opcode::POP,
            0x51 => Opcode::MLOAD,
            0x52 => Opcode::MSTORE,
            0x53 => Opcode::MSTORE8,
            0x54 => Opcode::SLOAD,
            0x55 => Opcode::SSTORE,
            0x56 => Opcode::JUMP,
            0x57 => Opcode::JUMPI,
            0x58 => Opcode::PC,
            0x59 => Opcode::MSIZE,
            0x5a => Opcode::GAS,
            0x5b => Opcode::JUMPDEST,
            0xf0 => Opcode::CREATE,
            0xf1 => Opcode::CALL,
            0xf2 => Opcode::CALLCODE,
            0xf3 => Opcode::RETURN,
            0xf4 => Opcode::DELEGATECALL,
            0xff => Opcode::SUICIDE,
            _ => Opcode::INVALID,
        }
    }
}

impl vstd::std_specs::convert::FromSpecImpl<u8> for Opcode {
    open spec fn obeys_from_spec() -> bool {
        true
    }

    open spec fn from_spec(byte: u8) -> Opcode {
        decode(byte)
    }
}

/// The byte `0x5b`, and no other, decodes to `JUMPDEST`.
pub proof fn lemma_jumpdest_byte(byte: u8)
    ensures
        decode(byte) == Opcode::JUMPDEST <==> byte == 0x5b,
{
}

/// The bytes `0x60` to `0x7f`, and no others, decode to a `PUSH`; the byte
/// `0x5f + n` carries `n` bytes of immediate data, so that `n` lies between 1
/// and 32.
pub proof fn lemma_push_bytes(byte: u8)
    ensures
        decode(byte) is PUSH <==> 0x60 <= byte <= 0x7f,
        decode(byte) is PUSH ==> decode(byte).immediate_len() == byte - 0x5f,
        decode(byte).immediate_len() <= 32,
{
}

/// No two bytes decode to the same instruction, but for the bytes that decode
/// to `INVALID`.
pub proof fn lemma_decode_injective(a: u8, b: u8)
    requires
        decode(a) == decode(b),
        decode(a) != Opcode::INVALID,
    ensures
        a == b,
{
}

} // verus!
