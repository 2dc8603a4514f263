//! The program counter: where execution stands in the code, and where it may
//! jump to.

use crate::errors::{ExecutionError, ExecutionResult};
use crate::m256::{be_value, lemma_low_bytes, low_bytes, M256};
use crate::opcode::{decode, lemma_jumpdest_byte, lemma_push_bytes, Opcode};
use vstd::prelude::*;
use vstd::slice::slice_to_vec;

verus! {

/// Offset of the instruction that follows the one at `offset`: past the
/// instruction's own byte and past its immediate data.
pub open spec fn next_instruction(code: Seq<u8>, offset: int) -> int {
    offset + 1 + decode(code[offset]).immediate_len()
}

/// Whether going from instruction to instruction, starting at `from`, arrives
/// at `offset`. Nothing follows an instruction that starts outside the code,
/// and the way never turns back.
pub open spec fn reaches(code: Seq<u8>, from: int, offset: int) -> bool
    decreases offset - from,
{
    if from >= offset {
        from == offset
    } else if 0 <= from < code.len() && next_instruction(code, from) <= offset {
        reaches(code, next_instruction(code, from), offset)
    } else {
        false
    }
}

/// Whether an instruction starts at `offset` when the code is read from its
/// first byte on. The bytes of immediate data start no instruction.
pub open spec fn is_instruction_start(code: Seq<u8>, offset: int) -> bool {
    reaches(code, 0, offset)
}

/// Whether `offset` may be jumped to: it lies in the code, an instruction
/// starts there, and that instruction is `JUMPDEST`.
pub open spec fn is_jump_target(code: Seq<u8>, offset: int) -> bool {
    &&& 0 <= offset < code.len()
    &&& is_instruction_start(code, offset)
    &&& decode(code[offset]) == Opcode::JUMPDEST
}

/// For each offset of the code, whether it may be jumped to.
pub open spec fn valid_targets(code: Seq<u8>) -> Seq<bool> {
    Seq::new(code.len(), |offset: int| is_jump_target(code, offset))
}

/// The `count` bytes of an operand that starts at `position`: the bytes of the
/// code from there on, and a zero for each byte past the end of the code.
pub open spec fn operand_bytes(code: Seq<u8>, position: nat, count: nat) -> Seq<u8> {
    Seq::new(
        count,
        |k: int|
            if position + k < code.len() {
                code[position + k]
            } else {
                0u8
            },
    )
}

/// Where the way from `from` arrives at an instruction inside the code, it
/// goes on to the instruction after it.
pub proof fn lemma_reaches_next(code: Seq<u8>, from: int, at: int)
    requires
        reaches(code, from, at),
        0 <= at < code.len(),
    ensures
        reaches(code, from, next_instruction(code, at)),
    decreases at - from,
{
    if from < at {
        lemma_reaches_next(code, next_instruction(code, from), at);
    } else {
        assert(reaches(code, next_instruction(code, at), next_instruction(code, at)));
    }
}

/// The way from `from` passes over the immediate data of each instruction it
/// arrives at: it arrives at no offset strictly between that instruction and
/// the next.
pub proof fn lemma_skips_immediate(code: Seq<u8>, from: int, at: int, offset: int)
    requires
        reaches(code, from, at),
        0 <= at < code.len(),
        at < offset < next_instruction(code, at),
    ensures
        !reaches(code, from, offset),
    decreases at - from,
{
    if from < at {
        lemma_skips_immediate(code, next_instruction(code, from), at, offset);
    } else {
        assert(!reaches(code, next_instruction(code, at), offset));
    }
}

/// What a program counter is, as plain values.
pub struct PCView {
    /// The code under execution.
    pub code: Seq<u8>,
    /// For each offset of the code, whether the counter accepts a jump to it.
    pub valid_targets: Seq<bool>,
    /// Offset of the byte that is read next.
    pub position: nat,
    /// Whether a stop was requested.
    pub stopped: bool,
}

impl PCView {
    /// The jump targets are those of the code: one flag for each byte, set
    /// where a `JUMPDEST` starts an instruction.
    pub open spec fn wf(self) -> bool {
        self.valid_targets == valid_targets(self.code)
    }

    /// Whether execution is over: a stop was requested, or the position has
    /// left the code.
    pub open spec fn halted(self) -> bool {
        self.stopped || self.position >= self.code.len()
    }

    /// The same counter at another position.
    pub open spec fn at(self, position: nat) -> PCView {
        PCView { position, ..self }
    }

    /// What every operation keeps: the code, its jump targets, and a stop
    /// once it was requested.
    pub open spec fn evolves_to(self, next: PCView) -> bool {
        &&& next.code == self.code
        &&& next.valid_targets == self.valid_targets
        &&& self.stopped ==> next.stopped
    }
}

/// The program counter of one execution. It owns the code, which never
/// changes, and the flags of the offsets that may be jumped to, which are
/// computed once from the code.
pub struct PC {
    position: usize,
    code: Vec<u8>,
    valids: Vec<bool>,
    stopped: bool,
}

impl View for PC {
    type V = PCView;

    closed spec fn view(&self) -> PCView {
        PCView {
            code: self.code@,
            valid_targets: self.valids@,
            position: self.position as nat,
            stopped: self.stopped,
        }
    }
}

impl PC {
    /// Every program counter is well-formed, at all times.
    #[verifier::type_invariant]
    pub open spec fn wf(&self) -> bool {
        self@.wf()
    }

    /// A counter at the start of `code`, with no stop requested. The jump
    /// targets are found in one pass over the code, which decodes each
    /// instruction and passes over the immediate data of each `PUSH`, so that
    /// no byte of such data becomes a target, whatever its value.
    pub fn new(code: &[u8]) -> (pc: PC)
        ensures
            pc@ == (PCView {
                code: code@,
                valid_targets: valid_targets(code@),
                position: 0,
                stopped: false,
            }),
            pc@.wf(),
            code@.len() == 0 ==> pc@.halted(),
    {
        let code: Vec<u8> = slice_to_vec(code);
        let len = code.len();
        let mut valids: Vec<bool> = vec![false; len];
        let mut i: usize = 0;
        while i < len
            invariant
                len == code@.len(),
                valids@.len() == len,
                i <= len,
                i < len ==> is_instruction_start(code@, i as int),
                forall|j: int| 0 <= j < i ==> valids@[j] == is_jump_target(code@, j),
                forall|j: int| i <= j < len ==> !valids@[j],
            decreases len - i,
        {
            let opcode = Opcode::from(code[i]);
            let ghost next = next_instruction(code@, i as int);
            proof {
                lemma_push_bytes(code@[i as int]);
                lemma_reaches_next(code@, 0, i as int);
                assert forall|j: int| i < j < next && j < len implies !is_jump_target(
                    code@,
                    j,
                ) by {
                    lemma_skips_immediate(code@, 0, i as int, j);
                }
            }
            match opcode {
                Opcode::JUMPDEST => {
                    valids[i] = true;
                    i = i + 1;
                },
                Opcode::PUSH(v) => {
                    i = if v < len - i - 1 {
                        i + v + 1
                    } else {
                        len
                    };
                },
                _ => {
                    i = i + 1;
                },
            }
        }
        assert(valids@ =~= valid_targets(code@));
        PC { position: 0, code, valids, stopped: false }
    }

    /// The code under execution.
    pub fn code(&self) -> (code: &[u8])
        ensures
            code@ == self@.code,
    {
        self.code.as_slice()
    }

    /// Moves to `position` if it may be jumped to: it lies in the code and its
    /// flag is set. Otherwise the counter stays as it is, and the error says
    /// whether `position` lies outside the code or is no jump target in it.
    pub fn jump(&mut self, position: usize) -> (r: ExecutionResult<()>)
        ensures
            old(self)@.evolves_to(final(self)@),
            position >= old(self)@.code.len() ==> r == Err::<(), ExecutionError>(
                ExecutionError::PCOverflow,
            ),
            position < old(self)@.code.len() && !old(self)@.valid_targets[position as int] ==> r
                == Err::<(), ExecutionError>(ExecutionError::PCBadJumpDest),
            position < old(self)@.code.len() && old(self)@.valid_targets[position as int] ==> r
                == Ok::<(), ExecutionError>(()),
            r is Ok ==> final(self)@ == old(self)@.at(position as nat),
            r is Err ==> final(self)@ == old(self)@,
            r is Ok <==> is_jump_target(old(self)@.code, position as int),
    {
        proof {
            use_type_invariant(&*self);
        }
        if position >= self.code.len() {
            return Err(ExecutionError::PCOverflow);
        }
        if !self.valids[position] {
            return Err(ExecutionError::PCBadJumpDest);
        }
        self.position = position;
        Ok(())
    }

    /// Moves to `position`, whatever it is: inside the code or outside, a jump
    /// target or not.
    pub fn jump_unchecked(&mut self, position: usize)
        ensures
            final(self)@ == old(self)@.at(position as nat),
            old(self)@.evolves_to(final(self)@),
    {
        proof {
            use_type_invariant(&*self);
        }
        self.position = position;
    }

    /// Offset of the byte that is read next.
    pub fn position(&self) -> (position: usize)
        ensures
            position == self@.position,
    {
        self.position
    }

    /// The instruction at the position, which stays where it is. There is none
    /// once the position has left the code.
    pub fn peek_opcode(&self) -> (r: ExecutionResult<Opcode>)
        ensures
            self@.position < self@.code.len() ==> r == Ok::<Opcode, ExecutionError>(
                decode(self@.code[self@.position as int]),
            ),
            self@.position >= self@.code.len() ==> r == Err::<Opcode, ExecutionError>(
                ExecutionError::PCOverflow,
            ),
    {
        let position = self.position;
        if position >= self.code.len() {
            return Err(ExecutionError::PCOverflow);
        }
        let opcode = Opcode::from(self.code[position]);
        Ok(opcode)
    }

    /// The instruction at the position, which then moves on by one byte. A
    /// position that cannot move on within `usize` is too large; one that has
    /// left the code holds no instruction. Either way the counter stays as it
    /// is.
    pub fn read_opcode(&mut self) -> (r: ExecutionResult<Opcode>)
        ensures
            old(self)@.evolves_to(final(self)@),
            old(self)@.position + 1 > usize::MAX ==> r == Err::<Opcode, ExecutionError>(
                ExecutionError::PCTooLarge,
            ),
            old(self)@.position + 1 <= usize::MAX && old(self)@.position >= old(self)@.code.len()
                ==> r == Err::<Opcode, ExecutionError>(ExecutionError::PCOverflow),
            old(self)@.position < old(self)@.code.len() ==> r == Ok::<Opcode, ExecutionError>(
                decode(old(self)@.code[old(self)@.position as int]),
            ),
            r is Ok ==> final(self)@ == old(self)@.at(old(self)@.position + 1),
            r is Err ==> final(self)@ == old(self)@,
    {
        proof {
            use_type_invariant(&*self);
        }
        let position = self.position;
        let len = self.code.len();
        if position.checked_add(1).is_none() {
            return Err(ExecutionError::PCTooLarge);
        }
        if position >= len {
            return Err(ExecutionError::PCOverflow);
        }
        let opcode = Opcode::from(self.code[position]);
        self.position = position + 1;
        Ok(opcode)
    }

    /// Requests a stop. The request is never taken back.
    pub fn stop(&mut self)
        ensures
            final(self)@ == (PCView { stopped: true, ..old(self)@ }),
            old(self)@.evolves_to(final(self)@),
            final(self)@.halted(),
    {
        proof {
            use_type_invariant(&*self);
        }
        self.stopped = true;
    }

    /// Whether execution is over: a stop was requested, or the position has
    /// left the code.
    pub fn stopped(&self) -> (stopped: bool)
        ensures
            stopped == self@.halted(),
    {
        self.stopped || self.position >= self.code.len()
    }

    /// The operand of `byte_count` bytes at the position, as a big-endian
    /// number, and the position moved past it. The operand takes its full
    /// width even where the code ends inside it, or before it: the bytes past
    /// the end of the code are zero, and the position moves by `byte_count` all
    /// the same. Of an operand wider than 32 bytes the word holds the last 32.
    /// Where the position cannot move that far within `usize` it is too large,
    /// and the counter stays as it is.
    pub fn read(&mut self, byte_count: usize) -> (r: ExecutionResult<M256>)
        ensures
            old(self)@.evolves_to(final(self)@),
            old(self)@.position + byte_count > usize::MAX ==> r == Err::<M256, ExecutionError>(
                ExecutionError::PCTooLarge,
            ),
            old(self)@.position + byte_count <= usize::MAX ==> r is Ok,
            r is Ok ==> final(self)@ == old(self)@.at(old(self)@.position + byte_count as nat),
            r is Err ==> final(self)@ == old(self)@,
            r matches Ok(word) ==> word@ == be_value(
                operand_bytes(old(self)@.code, old(self)@.position, byte_count as nat),
            ) % M256::modulus(),
            r matches Ok(word) ==> byte_count <= 32 ==> word@ == be_value(
                operand_bytes(old(self)@.code, old(self)@.position, byte_count as nat),
            ),
    {
        proof {
            use_type_invariant(&*self);
        }
        let position = self.position;
        let end = match position.checked_add(byte_count) {
            Some(end) => end,
            None => {
                return Err(ExecutionError::PCTooLarge);
            },
        };
        let width: usize = if byte_count < 32 {
            byte_count
        } else {
            32
        };
        let first: usize = end - width;
        let ghost operand = operand_bytes(self.code@, position as nat, byte_count as nat);
        let mut low: Vec<u8> = Vec::with_capacity(width);
        let mut k: usize = 0;
        while k < width
            invariant
                k <= width <= byte_count,
                first + width == end,
                end == position + byte_count,
                low@.len() == k,
                operand == operand_bytes(self.code@, position as nat, byte_count as nat),
                forall|j: int| 0 <= j < k ==> low@[j] == operand[byte_count - width + j],
            decreases width - k,
        {
            let offset = first + k;
            let byte = if offset < self.code.len() {
                self.code[offset]
            } else {
                0
            };
            low.push(byte);
            k += 1;
        }
        self.position = end;
        proof {
            assert(low@ =~= low_bytes(operand));
            lemma_low_bytes(operand);
        }
        Ok(M256::from_be_bytes(low.as_slice()))
    }
}

/// A well-formed counter holds one flag for each byte of its code.
pub proof fn lemma_one_flag_per_byte(pc: PCView)
    requires
        pc.wf(),
    ensures
        pc.valid_targets.len() == pc.code.len(),
{
}

/// Where the flag of an offset is set, the byte there is `0x5b`, which decodes
/// to `JUMPDEST`, and an instruction starts there.
pub proof fn lemma_target_is_jumpdest(pc: PCView, offset: int)
    requires
        pc.wf(),
        0 <= offset < pc.valid_targets.len(),
        pc.valid_targets[offset],
    ensures
        offset < pc.code.len(),
        pc.code[offset] == 0x5b,
        decode(pc.code[offset]) == Opcode::JUMPDEST,
        is_instruction_start(pc.code, offset),
{
    lemma_jumpdest_byte(pc.code[offset]);
}

/// No flag is set inside the immediate data of an instruction, whatever the
/// bytes there are: not at any offset after the start of an instruction and
/// before the start of the next.
pub proof fn lemma_no_target_in_immediate(pc: PCView, start: int, offset: int)
    requires
        pc.wf(),
        0 <= start < pc.code.len(),
        is_instruction_start(pc.code, start),
        start < offset < next_instruction(pc.code, start),
        offset < pc.code.len(),
    ensures
        !pc.valid_targets[offset],
{
    lemma_skips_immediate(pc.code, 0, start, offset);
}

/// Through any run of operations a counter keeps its code and its flags, and
/// stays well-formed; and from the state in which a stop was requested on,
/// every state is over, wherever the position goes.
pub proof fn lemma_lifetime(trace: Seq<PCView>, i: int)
    requires
        0 <= i < trace.len(),
        trace[0].wf(),
        forall|k: int| 0 <= k < trace.len() - 1 ==> (#[trigger] trace[k]).evolves_to(trace[k + 1]),
    ensures
        trace[i].code == trace[0].code,
        trace[i].valid_targets == trace[0].valid_targets,
        trace[i].wf(),
        trace[0].stopped ==> trace[i].stopped && trace[i].halted(),
    decreases i,
{
    if i > 0 {
        lemma_lifetime(trace, i - 1);
        assert(trace[i - 1].evolves_to(trace[i - 1 + 1]));
    }
}

impl Default for PC {
    /// A counter over no code, which is over from the start: a stop is already
    /// requested.
    fn default() -> (pc: PC)
        ensures
            pc@ == (PCView {
                code: Seq::<u8>::empty(),
                valid_targets: Seq::<bool>::empty(),
                position: 0,
                stopped: true,
            }),
            pc@.wf(),
            pc@.halted(),
    {
        let code: Vec<u8> = Vec::new();
        let valids: Vec<bool> = Vec::new();
        assert(valids@ =~= valid_targets(code@));
        PC { position: 0, code, valids, stopped: true }
    }
}

} // verus!
