//! State of the interactive game debugger: memory, registers and the
//! bookkeeping of one executed instruction.

use vstd::prelude::*;
use crate::le::{le_u16, le_u16_bytes, le_u32, le_u32_bytes, read_u16_at, read_u32_at, u16_le_bytes, u32_le_bytes};

verus! {

/// Size of the emulated memory, in bytes
pub const MEMORY_SIZE: usize = 0x200000;

/// Number of general purpose registers
pub const REGISTERS_LEN: usize = 32;

/// Memory
pub struct Memory {
    /// All bytes
    bytes: Vec<u8>,
}

impl View for Memory {
    type V = Seq<u8>;

    closed spec fn view(&self) -> Seq<u8> {
        self.bytes@
    }
}

impl Memory {
    /// The memory holds exactly `MEMORY_SIZE` bytes.
    pub open spec fn wf(&self) -> bool {
        self@.len() == MEMORY_SIZE
    }

    /// Creates a new memory chunk
    pub fn new() -> (res: Self)
        ensures
            res.wf(),
            forall|i: int| 0 <= i < MEMORY_SIZE ==> #[trigger] res@[i] == 0,
    {
        let mut bytes: Vec<u8> = Vec::new();
        let mut i: usize = 0;
        while i < MEMORY_SIZE
            invariant
                i <= MEMORY_SIZE,
                bytes@.len() == i,
                forall|j: int| 0 <= j < i ==> #[trigger] bytes@[j] == 0,
            decreases MEMORY_SIZE - i,
        {
            bytes.push(0);
            i = i + 1;
        }
        Memory { bytes }
    }

    /// Returns the byte at `index`
    pub fn get(&self, index: usize) -> (res: Option<&u8>)
        ensures
            index < self@.len() ==> res == Some(&self@[index as int]),
            index >= self@.len() ==> res is None,
    {
        if index < self.bytes.len() {
            Some(&self.bytes[index])
        } else {
            None
        }
    }

    /// Returns the bytes at `start..end`
    pub fn get_range(&self, start: usize, end: usize) -> (res: Option<&[u8]>)
        ensures
            start <= end <= self@.len() ==> res is Some && res->Some_0@ == self@.subrange(start as int, end as int),
            !(start <= end <= self@.len()) ==> res is None,
    {
        if start <= end && end <= self.bytes.len() {
            Some(&self.bytes.as_slice()[start..end])
        } else {
            None
        }
    }

    /// Returns the byte at `index` mutably
    pub fn get_mut(&mut self, index: usize) -> (res: Option<&mut u8>)
        ensures
            index < old(self)@.len() ==> res is Some && *res->Some_0 == old(self)@[index as int]
                && final(self)@ == old(self)@.update(index as int, *final(res->Some_0)),
            index >= old(self)@.len() ==> res is None && final(self)@ == old(self)@,
    {
        if index < self.bytes.len() {
            Some(&mut self.bytes[index])
        } else {
            None
        }
    }

    /// Returns the bytes at `start..end` mutably
    pub fn get_range_mut(&mut self, start: usize, end: usize) -> (res: Option<&mut [u8]>)
        ensures
            start <= end <= old(self)@.len() ==> res is Some
                && res->Some_0@ == old(self)@.subrange(start as int, end as int)
                && final(self)@ == old(self)@.subrange(0, start as int) + final(res->Some_0)@
                    + old(self)@.subrange(end as int, old(self)@.len() as int),
            !(start <= end <= old(self)@.len()) ==> res is None && final(self)@ == old(self)@,
    {
        if start <= end && end <= self.bytes.len() {
            let all = self.bytes.as_mut_slice();
            let (_, rest) = all.split_at_mut(start);
            let (mid, _) = rest.split_at_mut(end - start);
            Some(mid)
        } else {
            None
        }
    }
}

/// Multiplication result register
#[derive(PartialEq, Eq, Clone, Copy, Debug, Structural)]
pub enum MultReg {
    /// Low word
    Lo,
    /// High word
    Hi,
}

/// Execution error
#[derive(PartialEq, Eq, Clone, Copy, Debug, Structural)]
pub enum ExecError {
    /// Memory access at a position not aligned to the access size
    MemoryUnalignedAccess { pos: u32 },
    /// Memory access outside of memory
    MemoryOutOfBounds { pos: u32 },
    /// A jump was queued while another one was pending
    JumpWhileJumping,
    /// Unknown system call
    UnknownSys { comment: u32 },
}

/// What a system call asks of the debugger's front end
#[derive(PartialEq, Eq, Clone, Copy, Debug, Structural)]
pub enum SysCall {
    /// The program asked to stop
    Stop,
    /// The program printed a string, which was appended to the text
    PrintStr,
    /// The program asked for all registers to be printed
    PrintRegisters,
}

/// Index of register `$v0`, which holds the pointer a string system call prints
pub const REGISTER_V0: usize = 2;

/// Jump target state
#[derive(PartialEq, Eq, Clone, Copy, Debug, Structural)]
pub enum JumpTarget {
    /// No jump
    NoJump,
    /// Jump after the next instruction
    JumpNext(u32),
    /// Jump now
    JumpNow(u32),
}

/// Execution result
#[derive(PartialEq, Eq, Clone, Copy, Debug, Structural)]
pub enum ExecResult {
    /// Read from register `reg`
    ReadRegister { reg: usize, value: u32 },
    /// Read from mult register `reg`
    ReadMultRegister { reg: MultReg, value: u32 },
    /// Wrote to register `reg`
    WroteRegister { reg: usize, prev: u32, value: u32 },
    /// Wrote to mult register `reg`
    WroteMultRegister { reg: MultReg, prev: u32, value: u32 },
    /// Read a word from `pos`
    ReadWord { pos: u32, value: u32 },
    /// Read a half-word from `pos`
    ReadHalfWord { pos: u32, value: u16 },
    /// Read a byte from `pos`
    ReadByte { pos: u32, value: u8 },
    /// Wrote a word to `pos`
    WriteWord { pos: u32, prev: u32, value: u32 },
    /// Wrote a half-word to `pos`
    WriteHalfWord { pos: u32, prev: u16, value: u16 },
    /// Wrote a byte to `pos`
    WriteByte { pos: u32, prev: u8, value: u8 },
    /// Queued a jump to `pos`
    QueuedJump { pos: u32 },
}

/// Execution state
pub struct ExecState {
    /// Program counter
    pub pc: u32,
    /// Registers
    pub regs: [u32; 32],
    /// Lo / Hi
    pub lo_hi_reg: [u32; 2],
    /// Memory
    pub memory: Memory,
    /// Jump target
    pub jump_target: JumpTarget,
    /// If the processor should stop
    pub should_stop: bool,
    /// Results
    pub results: Vec<ExecResult>,
}

/// The memory index that the position `pos` addresses: its top nibble is
/// ignored.
pub open spec fn mem_index(pos: u32) -> int {
    (pos as int) % 0x1000_0000
}

/// The outcome of reading `n` bytes at `pos` of `mem`: unaligned unless `pos`
/// is a multiple of `n`, out of bounds unless the bytes lie in memory,
/// otherwise the index of the first byte.
pub open spec fn access(mem: Seq<u8>, pos: u32, n: int) -> Result<int, ExecError> {
    if (pos as int) % n != 0 {
        Err(ExecError::MemoryUnalignedAccess { pos })
    } else if mem_index(pos) + n > mem.len() {
        Err(ExecError::MemoryOutOfBounds { pos })
    } else {
        Ok(mem_index(pos))
    }
}

/// `mem` with `bytes` written from index `idx` on.
pub open spec fn written(mem: Seq<u8>, idx: int, bytes: Seq<u8>) -> Seq<u8> {
    mem.subrange(0, idx) + bytes + mem.subrange(idx + bytes.len(), mem.len() as int)
}

/// The program counter and jump state after an instruction at `pc` ran with
/// the jump state `jump`: a jump that was queued takes effect one instruction
/// later, after its delay slot.
pub open spec fn next_pc(pc: u32, jump: JumpTarget) -> (int, JumpTarget) {
    match jump {
        JumpTarget::NoJump => (pc + 4, JumpTarget::NoJump),
        JumpTarget::JumpNext(pos) => (pc + 4, JumpTarget::JumpNow(pos)),
        JumpTarget::JumpNow(pos) => (pos as int, JumpTarget::NoJump),
    }
}

/// The index of mult register `reg` in `lo_hi_reg`.
pub open spec fn mult_idx(reg: MultReg) -> int {
    match reg {
        MultReg::Lo => 0,
        MultReg::Hi => 1,
    }
}

impl ExecState {
    /// The memory has its size.
    pub open spec fn wf(&self) -> bool {
        self.memory.wf()
    }

    /// Every field but the memory and the results is as in `other`.
    pub open spec fn same_regs(&self, other: &ExecState) -> bool {
        &&& self.pc == other.pc
        &&& self.regs == other.regs
        &&& self.lo_hi_reg == other.lo_hi_reg
        &&& self.jump_target == other.jump_target
        &&& self.should_stop == other.should_stop
    }

    /// The masked index of `pos` as a `usize`.
    fn index_of(pos: u32) -> (res: usize)
        ensures
            res == mem_index(pos),
    {
        let idx = pos & 0x0FFF_FFFF;
        assert(pos & 0x0FFF_FFFF == pos % 0x1000_0000) by (bit_vector);
        idx as usize
    }

    /// The program counter
    pub fn pc(&self) -> (res: u32)
        ensures
            res == self.pc,
    {
        self.pc
    }

    /// Loads register `reg`, recording the read
    pub fn load_reg(&mut self, reg: usize) -> (value: u32)
        requires
            reg < REGISTERS_LEN,
        ensures
            value == old(self).regs[reg as int],
            final(self).same_regs(old(self)),
            final(self).memory@ == old(self).memory@,
            final(self).results@ == old(self).results@.push(ExecResult::ReadRegister { reg, value }),
    {
        let value = self.regs[reg];
        self.results.push(ExecResult::ReadRegister { reg, value });
        value
    }

    /// Stores `value` into register `reg`, recording the write
    pub fn store_reg(&mut self, reg: usize, value: u32)
        requires
            reg < REGISTERS_LEN,
        ensures
            final(self).regs@ == old(self).regs@.update(reg as int, value),
            final(self).pc == old(self).pc,
            final(self).lo_hi_reg == old(self).lo_hi_reg,
            final(self).jump_target == old(self).jump_target,
            final(self).should_stop == old(self).should_stop,
            final(self).memory@ == old(self).memory@,
            final(self).results@ == old(self).results@.push(
                ExecResult::WroteRegister { reg, prev: old(self).regs[reg as int], value },
            ),
    {
        let prev = self.regs[reg];
        self.regs[reg] = value;
        self.results.push(ExecResult::WroteRegister { reg, prev, value });
    }

    /// Loads mult register `reg`, recording the read
    pub fn load_mult_reg(&mut self, reg: MultReg) -> (value: u32)
        ensures
            value == old(self).lo_hi_reg[mult_idx(reg)],
            final(self).same_regs(old(self)),
            final(self).memory@ == old(self).memory@,
            final(self).results@ == old(self).results@.push(ExecResult::ReadMultRegister { reg, value }),
    {
        let value = match reg {
            MultReg::Lo => self.lo_hi_reg[0],
            MultReg::Hi => self.lo_hi_reg[1],
        };
        self.results.push(ExecResult::ReadMultRegister { reg, value });
        value
    }

    /// Stores `value` into mult register `reg`, recording the write
    pub fn store_mult_reg(&mut self, reg: MultReg, value: u32)
        ensures
            final(self).lo_hi_reg@ == old(self).lo_hi_reg@.update(mult_idx(reg), value),
            final(self).pc == old(self).pc,
            final(self).regs == old(self).regs,
            final(self).jump_target == old(self).jump_target,
            final(self).should_stop == old(self).should_stop,
            final(self).memory@ == old(self).memory@,
            final(self).results@ == old(self).results@.push(
                ExecResult::WroteMultRegister { reg, prev: old(self).lo_hi_reg[mult_idx(reg)], value },
            ),
    {
        let prev = match reg {
            MultReg::Lo => self.lo_hi_reg[0],
            MultReg::Hi => self.lo_hi_reg[1],
        };
        match reg {
            MultReg::Lo => self.lo_hi_reg[0] = value,
            MultReg::Hi => self.lo_hi_reg[1] = value,
        }
        self.results.push(ExecResult::WroteMultRegister { reg, prev, value });
    }

    /// Queues a jump to `pos`, which happens after the next instruction
    pub fn queue_jump(&mut self, pos: u32) -> (res: Result<(), ExecError>)
        ensures
            old(self).jump_target is NoJump ==> res is Ok && final(self).jump_target == JumpTarget::JumpNext(pos)
                && final(self).results@ == old(self).results@.push(ExecResult::QueuedJump { pos }),
            !(old(self).jump_target is NoJump) ==> res == Err::<(), ExecError>(ExecError::JumpWhileJumping)
                && final(self).jump_target == old(self).jump_target
                && final(self).results@ == old(self).results@,
            final(self).pc == old(self).pc,
            final(self).regs == old(self).regs,
            final(self).lo_hi_reg == old(self).lo_hi_reg,
            final(self).should_stop == old(self).should_stop,
            final(self).memory@ == old(self).memory@,
    {
        match self.jump_target {
            JumpTarget::NoJump => {
                self.jump_target = JumpTarget::JumpNext(pos);
                self.results.push(ExecResult::QueuedJump { pos });
                Ok(())
            },
            _ => Err(ExecError::JumpWhileJumping),
        }
    }

    /// Moves the program counter past an executed instruction: to the next
    /// instruction, or to a jump target whose delay slot has just run.
    pub fn update_pc(&mut self)
        requires
            !(old(self).jump_target is JumpNow) ==> old(self).pc + 4 <= u32::MAX,
        ensures
            (final(self).pc as int, final(self).jump_target) == next_pc(old(self).pc, old(self).jump_target),
            final(self).regs == old(self).regs,
            final(self).lo_hi_reg == old(self).lo_hi_reg,
            final(self).should_stop == old(self).should_stop,
            final(self).memory@ == old(self).memory@,
            final(self).results@ == old(self).results@,
    {
        self.pc = match self.jump_target {
            JumpTarget::NoJump => self.pc + 4,
            JumpTarget::JumpNext(pos) => {
                self.jump_target = JumpTarget::JumpNow(pos);
                self.pc + 4
            },
            JumpTarget::JumpNow(pos) => {
                self.jump_target = JumpTarget::NoJump;
                pos
            },
        };
    }

    /// Reads a word from a memory position
    pub fn read_word(&mut self, pos: u32) -> (res: Result<u32, ExecError>)
        ensures
            match access(old(self).memory@, pos, 4) {
                Err(e) => res == Err::<u32, ExecError>(e) && final(self).results@ == old(self).results@,
                Ok(idx) => res == Ok::<u32, ExecError>(le_u32(old(self).memory@, idx) as u32)
                    && final(self).results@ == old(self).results@.push(ExecResult::ReadWord { pos, value: res->Ok_0 }),
            },
            final(self).same_regs(old(self)),
            final(self).memory@ == old(self).memory@,
    {
        // If the position isn't aligned, return Err
        if pos % 4 != 0 {
            return Err(ExecError::MemoryUnalignedAccess { pos });
        }

        // Ignore the top nibble
        let idx = Self::index_of(pos);

        // Then read from memory
        let mem = match self.memory.get_range(idx, idx + 4) {
            Some(mem) => mem,
            None => return Err(ExecError::MemoryOutOfBounds { pos }),
        };
        let value = read_u32_at(mem, 0);
        self.results.push(ExecResult::ReadWord { pos, value });
        Ok(value)
    }

    /// Reads a half-word from a memory position
    pub fn read_half_word(&mut self, pos: u32) -> (res: Result<u16, ExecError>)
        ensures
            match access(old(self).memory@, pos, 2) {
                Err(e) => res == Err::<u16, ExecError>(e) && final(self).results@ == old(self).results@,
                Ok(idx) => res == Ok::<u16, ExecError>(le_u16(old(self).memory@, idx) as u16)
                    && final(self).results@ == old(self).results@.push(ExecResult::ReadHalfWord { pos, value: res->Ok_0 }),
            },
            final(self).same_regs(old(self)),
            final(self).memory@ == old(self).memory@,
    {
        // If the position isn't aligned, return Err
        if pos % 2 != 0 {
            return Err(ExecError::MemoryUnalignedAccess { pos });
        }

        // Ignore the top nibble
        let idx = Self::index_of(pos);

        // Then read from memory
        let mem = match self.memory.get_range(idx, idx + 2) {
            Some(mem) => mem,
            None => return Err(ExecError::MemoryOutOfBounds { pos }),
        };
        let value = read_u16_at(mem, 0);
        self.results.push(ExecResult::ReadHalfWord { pos, value });
        Ok(value)
    }

    /// Reads a byte from a memory position
    pub fn read_byte(&mut self, pos: u32) -> (res: Result<u8, ExecError>)
        ensures
            match access(old(self).memory@, pos, 1) {
                Err(e) => res == Err::<u8, ExecError>(e) && final(self).results@ == old(self).results@,
                Ok(idx) => res == Ok::<u8, ExecError>(old(self).memory@[idx])
                    && final(self).results@ == old(self).results@.push(ExecResult::ReadByte { pos, value: res->Ok_0 }),
            },
            final(self).same_regs(old(self)),
            final(self).memory@ == old(self).memory@,
    {
        // Ignore the top nibble
        let idx = Self::index_of(pos);

        // Then read from memory
        let value = match self.memory.get(idx) {
            Some(value) => *value,
            None => return Err(ExecError::MemoryOutOfBounds { pos }),
        };
        self.results.push(ExecResult::ReadByte { pos, value });
        Ok(value)
    }

    /// Stores a word to a memory position
    pub fn write_word(&mut self, pos: u32, value: u32) -> (res: Result<(), ExecError>)
        ensures
            match access(old(self).memory@, pos, 4) {
                Err(e) => res == Err::<(), ExecError>(e) && final(self).results@ == old(self).results@
                    && final(self).memory@ == old(self).memory@,
                Ok(idx) => res is Ok
                    && final(self).memory@ == written(old(self).memory@, idx, le_u32_bytes(value as int))
                    && final(self).results@ == old(self).results@.push(
                        ExecResult::WriteWord { pos, prev: le_u32(old(self).memory@, idx) as u32, value },
                    ),
            },
            final(self).same_regs(old(self)),
    {
        // If the position isn't aligned, return Err
        if pos % 4 != 0 {
            return Err(ExecError::MemoryUnalignedAccess { pos });
        }

        // Ignore the top nibble
        let idx = Self::index_of(pos);

        // Then write to memory
        let ghost before = self.memory@;
        let mem = match self.memory.get_range_mut(idx, idx + 4) {
            Some(mem) => mem,
            None => return Err(ExecError::MemoryOutOfBounds { pos }),
        };
        let prev = read_u32_at(mem, 0);
        let bytes = u32_le_bytes(value);
        mem[0] = bytes[0];
        mem[1] = bytes[1];
        mem[2] = bytes[2];
        mem[3] = bytes[3];
        assert(self.memory@ =~= written(before, idx as int, le_u32_bytes(value as int)));
        self.results.push(ExecResult::WriteWord { pos, prev, value });
        Ok(())
    }

    /// Writes a half-word to a memory position
    pub fn write_half_word(&mut self, pos: u32, value: u16) -> (res: Result<(), ExecError>)
        ensures
            match access(old(self).memory@, pos, 2) {
                Err(e) => res == Err::<(), ExecError>(e) && final(self).results@ == old(self).results@
                    && final(self).memory@ == old(self).memory@,
                Ok(idx) => res is Ok
                    && final(self).memory@ == written(old(self).memory@, idx, le_u16_bytes(value as int))
                    && final(self).results@ == old(self).results@.push(
                        ExecResult::WriteHalfWord { pos, prev: le_u16(old(self).memory@, idx) as u16, value },
                    ),
            },
            final(self).same_regs(old(self)),
    {
        // If the position isn't aligned, return Err
        if pos % 2 != 0 {
            return Err(ExecError::MemoryUnalignedAccess { pos });
        }

        // Ignore the top nibble
        let idx = Self::index_of(pos);

        // Then write to memory
        let ghost before = self.memory@;
        let mem = match self.memory.get_range_mut(idx, idx + 2) {
            Some(mem) => mem,
            None => return Err(ExecError::MemoryOutOfBounds { pos }),
        };
        let prev = read_u16_at(mem, 0);
        let bytes = u16_le_bytes(value);
        mem[0] = bytes[0];
        mem[1] = bytes[1];
        assert(self.memory@ =~= written(before, idx as int, le_u16_bytes(value as int)));
        self.results.push(ExecResult::WriteHalfWord { pos, prev, value });
        Ok(())
    }

    /// Writes a byte to a memory position
    pub fn write_byte(&mut self, pos: u32, value: u8) -> (res: Result<(), ExecError>)
        ensures
            match access(old(self).memory@, pos, 1) {
                Err(e) => res == Err::<(), ExecError>(e) && final(self).results@ == old(self).results@
                    && final(self).memory@ == old(self).memory@,
                Ok(idx) => res is Ok
                    && final(self).memory@ == old(self).memory@.update(idx, value)
                    && final(self).results@ == old(self).results@.push(
                        ExecResult::WriteByte { pos, prev: old(self).memory@[idx], value },
                    ),
            },
            final(self).same_regs(old(self)),
    {
        // Ignore the top nibble
        let idx = Self::index_of(pos);

        // Then write to memory
        let mem = match self.memory.get_mut(idx) {
            Some(mem) => mem,
            None => return Err(ExecError::MemoryOutOfBounds { pos }),
        };
        let prev = *mem;
        *mem = value;
        self.results.push(ExecResult::WriteByte { pos, prev, value });
        Ok(())
    }
}

/// The value of the digit `c` in bases up to 36: `0-9`, then `a-z` or `A-Z`
/// from 10; 36 for any other character.
pub open spec fn digit_value(c: char) -> int {
    if '0' <= c && c <= '9' {
        c as int - '0' as int
    } else if 'a' <= c && c <= 'z' {
        c as int - 'a' as int + 10
    } else if 'A' <= c && c <= 'Z' {
        c as int - 'A' as int + 10
    } else {
        36
    }
}

/// The value of the digits `d` in base `radix`, most significant first.
pub open spec fn digits_value(d: Seq<char>, radix: int) -> int
    decreases d.len(),
{
    if d.len() == 0 {
        0
    } else {
        digits_value(d.drop_last(), radix) * radix + digit_value(d.last())
    }
}

/// The sign of a number written as an optional `+` or `-` then its digits,
/// and those digits.
pub open spec fn split_sign(s: Seq<char>) -> (bool, Seq<char>) {
    if s.len() > 0 && s[0] == '+' {
        (false, s.skip(1))
    } else if s.len() > 0 && s[0] == '-' {
        (true, s.skip(1))
    } else {
        (false, s)
    }
}

/// What `i64::from_str_radix` documents: an optional sign, then one or more
/// digits of the base, whose value must fit in an `i64`.
pub open spec fn spec_from_str_radix(s: Seq<char>, radix: int) -> Option<i64> {
    let (neg, d) = split_sign(s);
    if s.len() == 0 || d.len() == 0 || exists|i: int| 0 <= i < d.len() && #[trigger] digit_value(d[i]) >= radix {
        None
    } else {
        let v = if neg { -digits_value(d, radix) } else { digits_value(d, radix) };
        if i64::MIN <= v <= i64::MAX { Some(v as i64) } else { None }
    }
}

/// Parses `s` in base `radix` with `i64::from_str_radix`: an optional sign,
/// then at least one digit of the base, the value in range of `i64`; any error
/// is `None`.
#[verifier::external_body]
fn i64_from_str_radix(s: &str, radix: u32) -> (res: Option<i64>)
    requires
        2 <= radix <= 36,
    ensures
        res == spec_from_str_radix(s@, radix as int),
{
    i64::from_str_radix(s, radix).ok()
}

/// The base that a number's prefix selects (`0x`, `0o`, `0b`, else
/// decimal), and the digits after the prefix.
pub open spec fn split_base(num: Seq<char>) -> (int, Seq<char>) {
    if num.len() >= 2 && num[0] == '0' && num[1] == 'x' {
        (16, num.skip(2))
    } else if num.len() >= 2 && num[0] == '0' && num[1] == 'o' {
        (8, num.skip(2))
    } else if num.len() >= 2 && num[0] == '0' && num[1] == 'b' {
        (2, num.skip(2))
    } else {
        (10, num)
    }
}

/// What [`parse_number`] parses `s` as: an optional sign, an optional base
/// prefix, then what `i64::from_str_radix` accepts in that base, negated
/// after a leading `-`.
pub open spec fn spec_parse_number(s: Seq<char>) -> Option<int> {
    let (neg, num) = split_sign(s);
    let (base, digits) = split_base(num);
    match spec_from_str_radix(digits, base) {
        None => None,
        Some(v) => Some(if neg { -v } else { v as int }),
    }
}

/// Parses a number with a possible base
pub fn parse_number(s: &str) -> (res: Option<i64>)
    requires
        spec_parse_number(s@) is Some ==> spec_parse_number(s@)->Some_0 <= i64::MAX,
    ensures
        match res {
            Some(v) => spec_parse_number(s@) == Some(v as int),
            None => spec_parse_number(s@) is None,
        },
{
    let len = s.unicode_len();
    // Check if it's negative
    let (is_neg, num) = if len > 0 && s.get_char(0) == '+' {
        (false, s.substring_char(1, len))
    } else if len > 0 && s.get_char(0) == '-' {
        (true, s.substring_char(1, len))
    } else {
        (false, s)
    };
    assert(split_sign(s@) == (is_neg, num@));

    // Check if we have a base
    let num_len = num.unicode_len();
    let prefixed = num_len >= 2 && num.get_char(0) == '0';
    let (base, digits): (u32, &str) = if prefixed && num.get_char(1) == 'x' {
        (16, num.substring_char(2, num_len))
    } else if prefixed && num.get_char(1) == 'o' {
        (8, num.substring_char(2, num_len))
    } else if prefixed && num.get_char(1) == 'b' {
        (2, num.substring_char(2, num_len))
    } else {
        (10, num)
    };
    assert(split_base(num@) == (base as int, digits@));

    // Parse it
    let num = match i64_from_str_radix(digits, base) {
        Some(num) => num,
        None => return None,
    };
    if is_neg {
        Some(-num)
    } else {
        Some(num)
    }
}

/// The lowercase character of the digit `v`: `0-9`, then `a-z` from 10.
pub open spec fn digit_char(v: int) -> char {
    if v < 10 {
        ('0' as int + v) as char
    } else {
        ('a' as int + v - 10) as char
    }
}

/// The digits of `n` in base `radix`, most significant first, lowercase and
/// without leading zeros (a lone `0` for zero).
pub open spec fn spec_digits(n: nat, radix: nat) -> Seq<char>
    decreases n,
{
    if radix < 2 || n < radix {
        seq![digit_char(n as int)]
    } else {
        proof {
            assert(n / radix < n) by (nonlinear_arith)
                requires
                    radix >= 2,
                    n >= radix,
            ;
        }
        spec_digits(n / radix, radix).push(digit_char((n % radix) as int))
    }
}

/// The prefix that selects base `radix` in [`parse_number`]: `0x`, `0o`,
/// `0b`, and none for decimal.
pub open spec fn base_prefix(radix: nat) -> Seq<char> {
    if radix == 16 {
        seq!['0', 'x']
    } else if radix == 8 {
        seq!['0', 'o']
    } else if radix == 2 {
        seq!['0', 'b']
    } else {
        Seq::empty()
    }
}

/// A digit's character has the digit's value.
proof fn lemma_digit_char(v: int)
    requires
        0 <= v < 36,
    ensures
        digit_value(digit_char(v)) == v,
{
}

/// The digits of `n` in base `radix` are digits of that base, at least one,
/// and their value is `n`.
proof fn lemma_spec_digits(n: nat, radix: nat)
    requires
        2 <= radix <= 36,
    ensures
        spec_digits(n, radix).len() >= 1,
        forall|i: int| 0 <= i < spec_digits(n, radix).len() ==> #[trigger] digit_value(spec_digits(n, radix)[i]) < radix,
        digits_value(spec_digits(n, radix), radix as int) == n,
    decreases n,
{
    let d = spec_digits(n, radix);
    if n < radix {
        lemma_digit_char(n as int);
        assert(d.drop_last() =~= Seq::<char>::empty());
        assert(digits_value(d.drop_last(), radix as int) == 0);
    } else {
        assert(n / radix < n) by (nonlinear_arith)
            requires
                radix >= 2,
                n >= radix,
        ;
        lemma_spec_digits(n / radix, radix);
        lemma_digit_char((n % radix) as int);
        let prev = spec_digits(n / radix, radix);
        assert(d.drop_last() =~= prev);
        assert(digits_value(d, radix as int) == digits_value(prev, radix as int) * radix + digit_value(d.last()));
        assert(n == (n / radix) * radix + n % radix) by (nonlinear_arith)
            requires
                radix >= 2,
        ;
        assert forall|i: int| 0 <= i < d.len() implies #[trigger] digit_value(d[i]) < radix by {
            if i < prev.len() {
                assert(d[i] == prev[i]);
            }
        }
    }
}

/// Printing a number in decimal, hexadecimal, octal or binary, behind the
/// prefix of its base and an optional `+` or `-`, and parsing it back gives the
/// number, negated after a `-`.
pub proof fn lemma_parse_number_round_trip(sign: Seq<char>, radix: nat, n: nat)
    requires
        sign == Seq::<char>::empty() || sign == seq!['+'] || sign == seq!['-'],
        radix == 2 || radix == 8 || radix == 10 || radix == 16,
        n <= i64::MAX,
    ensures
        spec_parse_number(sign + base_prefix(radix) + spec_digits(n, radix))
            == Some(if sign == seq!['-'] { -n } else { n as int }),
{
    let digits = spec_digits(n, radix);
    let num = base_prefix(radix) + digits;
    let s = sign + num;
    assert(sign + base_prefix(radix) + digits =~= s);
    lemma_spec_digits(n, radix);
    // Neither the prefix nor the digits start with a sign
    assert(digit_value(digits[0]) < radix);
    assert(num[0] != '+' && num[0] != '-');
    if sign.len() == 1 {
        assert(s.skip(1) =~= num);
    } else {
        assert(s =~= num);
    }
    assert(split_sign(s) == (sign == seq!['-'], num));
    // The prefix selects the base; decimal digits never read as one
    if radix == 10 {
        assert(num =~= digits);
        if digits.len() >= 2 {
            assert(digit_value(digits[1]) < 10);
        }
    } else {
        assert(num.skip(2) =~= digits);
    }
    assert(split_base(num) == (radix as int, digits));
    // The digits hold no sign and only digits of the base
    assert(spec_from_str_radix(digits, radix as int) == Some(n as i64)) by {
        assert(split_sign(digits) == (false, digits));
        assert(!(exists|i: int| 0 <= i < digits.len() && #[trigger] digit_value(digits[i]) >= radix));
    }
}

/// Writing a word and reading it back, at the same position, gives the word;
/// the write changes no other byte.
pub proof fn lemma_write_read_word(mem: Seq<u8>, pos: u32, value: u32)
    requires
        access(mem, pos, 4) is Ok,
    ensures
        ({
            let idx = access(mem, pos, 4)->Ok_0;
            let after = written(mem, idx, le_u32_bytes(value as int));
            &&& access(after, pos, 4) == access(mem, pos, 4)
            &&& le_u32(after, idx) == value
            &&& forall|j: int| 0 <= j < mem.len() && !(idx <= j < idx + 4) ==> #[trigger] after[j] == mem[j]
        }),
{
    let idx = access(mem, pos, 4)->Ok_0;
    let after = written(mem, idx, le_u32_bytes(value as int));
    crate::le::lemma_le_u32_bytes(value as int);
    assert(after.subrange(idx, idx + 4) =~= le_u32_bytes(value as int));
    assert(le_u32(after, idx) == le_u32(after.subrange(idx, idx + 4), 0));
}

/// Writing a half-word and reading it back, at the same position, gives the
/// half-word; the write changes no other byte.
pub proof fn lemma_write_read_half_word(mem: Seq<u8>, pos: u32, value: u16)
    requires
        access(mem, pos, 2) is Ok,
    ensures
        ({
            let idx = access(mem, pos, 2)->Ok_0;
            let after = written(mem, idx, le_u16_bytes(value as int));
            &&& access(after, pos, 2) == access(mem, pos, 2)
            &&& le_u16(after, idx) == value
            &&& forall|j: int| 0 <= j < mem.len() && !(idx <= j < idx + 2) ==> #[trigger] after[j] == mem[j]
        }),
{
    let idx = access(mem, pos, 2)->Ok_0;
    let after = written(mem, idx, le_u16_bytes(value as int));
    crate::le::lemma_le_u16_bytes(value as int);
    assert(after.subrange(idx, idx + 2) =~= le_u16_bytes(value as int));
    assert(le_u16(after, idx) == le_u16(after.subrange(idx, idx + 2), 0));
}

/// A queued jump lands after the instruction in its delay slot: the
/// instruction after the jump still runs, and the one after that is the
/// jump's target.
pub proof fn lemma_jump_delay_slot(pc: u32, target: u32)
    requires
        pc + 4 <= u32::MAX,
    ensures
        next_pc(pc, JumpTarget::JumpNext(target)) == ((pc + 4) as int, JumpTarget::JumpNow(target)),
        next_pc((pc + 4) as u32, JumpTarget::JumpNow(target)) == (target as int, JumpTarget::NoJump),
{
}

/// Input state of the debugger's prompt
#[derive(PartialEq, Eq, Clone, Copy, Debug, Structural)]
pub enum InputState {
    /// Break every instruction
    BreakEvery,
    /// Run until the program counter reaches `pos`, or forever
    RunUntil { pos: Option<u32> },
}

/// Error of [`InputState::update`]
#[derive(PartialEq, Eq, Clone, Debug)]
pub enum InputError {
    /// The position given to `r` was no number
    ParsePosition,
    /// The position given to `r` didn't fit into a `u32`
    PositionTooLarge,
    /// The command was neither `n` nor `r`
    UnknownArgument(String),
}

/// An error of [`InputState::update`], its argument as a character sequence.
pub ghost enum InputErrorView {
    /// The position given to `r` was no number
    ParsePosition,
    /// The position given to `r` didn't fit into a `u32`
    PositionTooLarge,
    /// The command was neither `n` nor `r`
    UnknownArgument(Seq<char>),
}

impl View for InputError {
    type V = InputErrorView;

    open spec fn view(&self) -> InputErrorView {
        match self {
            InputError::ParsePosition => InputErrorView::ParsePosition,
            InputError::PositionTooLarge => InputErrorView::PositionTooLarge,
            InputError::UnknownArgument(a) => InputErrorView::UnknownArgument(a@),
        }
    }
}

/// What the prompt's arguments `args` make of the input state `state`: `n`
/// breaks at every instruction, `r` runs until the position that follows
/// (forever without one); no argument keeps the state.
pub open spec fn spec_update(state: InputState, args: Seq<Seq<char>>) -> Result<InputState, InputErrorView> {
    if args.len() == 0 {
        Ok(state)
    } else if args[0] == seq!['n'] {
        Ok(InputState::BreakEvery)
    } else if args[0] == seq!['r'] {
        if args.len() == 1 {
            Ok(InputState::RunUntil { pos: None })
        } else {
            match spec_parse_number(args[1]) {
                None => Err(InputErrorView::ParsePosition),
                Some(v) => if 0 <= v <= u32::MAX {
                    Ok(InputState::RunUntil { pos: Some(v as u32) })
                } else {
                    Err(InputErrorView::PositionTooLarge)
                },
            }
        }
    } else {
        Err(InputErrorView::UnknownArgument(args[0]))
    }
}

/// Whether `s` is a single character `c`.
fn is_char(s: &str, c: char) -> (res: bool)
    ensures
        res == (s@ == seq![c]),
{
    if s.unicode_len() == 1 && s.get_char(0) == c {
        assert(s@ =~= seq![c]);
        true
    } else {
        false
    }
}

impl InputState {
    /// Updates the input state from the prompt's arguments
    pub fn update(&mut self, args: &[&str]) -> (res: Result<(), InputError>)
        requires
            args@.len() >= 2 && args@[0]@ == seq!['r'] && spec_parse_number(args@[1]@) is Some
                ==> spec_parse_number(args@[1]@)->Some_0 <= i64::MAX,
        ensures
            ({
                let spec = spec_update(*old(self), args@.map_values(|a: &str| a@));
                match res {
                    Ok(()) => spec == Ok::<InputState, InputErrorView>(*final(self)),
                    Err(e) => spec == Err::<InputState, InputErrorView>(e@) && *final(self) == *old(self),
                }
            }),
    {
        if args.len() == 0 {
            return Ok(());
        }
        let arg = args[0];
        if is_char(arg, 'n') {
            *self = InputState::BreakEvery;
        } else if is_char(arg, 'r') {
            let pos = if args.len() >= 2 {
                let num = match parse_number(args[1]) {
                    Some(num) => num,
                    None => return Err(InputError::ParsePosition),
                };
                if num < 0 || num > u32::MAX as i64 {
                    return Err(InputError::PositionTooLarge);
                }
                Some(num as u32)
            } else {
                None
            };
            *self = InputState::RunUntil { pos };
        } else {
            return Err(InputError::UnknownArgument(arg.to_owned()));
        }
        Ok(())
    }
}

/// Whether the `j`-th byte of the string at `ptr` lies in `mem`.
pub open spec fn str_byte_in_bounds(mem: Seq<u8>, ptr: u32, j: int) -> bool {
    ptr + j <= u32::MAX && mem_index((ptr + j) as u32) < mem.len()
}

/// The `j`-th byte of the string at `ptr`.
pub open spec fn str_byte(mem: Seq<u8>, ptr: u32, j: int) -> u8 {
    mem[mem_index((ptr + j) as u32)]
}

/// The first `k` bytes of the string at `ptr` lie in `mem` and none of them
/// ends it.
pub open spec fn str_prefix(mem: Seq<u8>, ptr: u32, k: int) -> bool {
    forall|j: int| 0 <= j < k ==> #[trigger] str_byte_in_bounds(mem, ptr, j) && str_byte(mem, ptr, j) != 0
}

/// The reads of the first `k` bytes of the string at `ptr`.
pub open spec fn str_reads(mem: Seq<u8>, ptr: u32, k: int) -> Seq<ExecResult> {
    Seq::new(k as nat, |j: int| ExecResult::ReadByte { pos: (ptr + j) as u32, value: str_byte(mem, ptr, j) })
}

impl ExecState {
    /// Performs the system call `comment`: `0` stops the processor, `1` prints
    /// the zero-terminated string at `$v0`, appending its bytes to `text`, `2`
    /// prints all registers.
    pub fn sys(&mut self, comment: u32, text: &mut Vec<u8>) -> (res: Result<SysCall, ExecError>)
        requires
            old(self).wf(),
        ensures
            final(self).pc == old(self).pc,
            final(self).regs == old(self).regs,
            final(self).lo_hi_reg == old(self).lo_hi_reg,
            final(self).jump_target == old(self).jump_target,
            final(self).memory@ == old(self).memory@,
            final(self).should_stop == (old(self).should_stop || comment == 0),
            comment == 0 ==> res == Ok::<SysCall, ExecError>(SysCall::Stop),
            comment == 2 ==> res == Ok::<SysCall, ExecError>(SysCall::PrintRegisters),
            comment > 2 ==> res == Err::<SysCall, ExecError>(ExecError::UnknownSys { comment }),
            comment != 1 ==> final(text)@ == old(text)@ && final(self).results@ == old(self).results@,
            comment == 1 ==> ({
                let mem = old(self).memory@;
                let ptr = old(self).regs[REGISTER_V0 as int];
                exists|k: int| #![trigger str_reads(mem, ptr, k)]
                    0 <= k && str_prefix(mem, ptr, k) && ptr + k <= u32::MAX
                    && final(text)@ == old(text)@ + Seq::new(k as nat, |j: int| str_byte(mem, ptr, j))
                    && if str_byte_in_bounds(mem, ptr, k) {
                        str_byte(mem, ptr, k) == 0 && res == Ok::<SysCall, ExecError>(SysCall::PrintStr)
                            && final(self).results@ == old(self).results@ + str_reads(mem, ptr, k + 1)
                    } else {
                        res == Err::<SysCall, ExecError>(ExecError::MemoryOutOfBounds { pos: (ptr + k) as u32 })
                            && final(self).results@ == old(self).results@ + str_reads(mem, ptr, k)
                    }
            }),
    {
        match comment {
            0 => {
                self.should_stop = true;
                Ok(SysCall::Stop)
            },
            1 => {
                let ghost mem = self.memory@;
                let ghost old_text = text@;
                let ghost old_results = self.results@;
                let ptr = self.regs[REGISTER_V0];
                let mut n: u32 = 0;
                assert(ptr & 0x0FFF_FFFF == ptr % 0x1000_0000) by (bit_vector);
                loop
                    invariant
                        mem == old(self).memory@,
                        mem.len() == MEMORY_SIZE,
                        self.memory@ == mem,
                        self.pc == old(self).pc,
                        self.regs == old(self).regs,
                        self.lo_hi_reg == old(self).lo_hi_reg,
                        self.jump_target == old(self).jump_target,
                        self.should_stop == old(self).should_stop,
                        ptr == old(self).regs[REGISTER_V0 as int],
                        comment == 1,
                        old_text == old(text)@,
                        old_results == old(self).results@,
                        ptr + n <= u32::MAX,
                        n > 0 ==> mem_index(ptr) + n <= MEMORY_SIZE,
                        mem_index((ptr + n) as u32) == mem_index(ptr) + n,
                        str_prefix(mem, ptr, n as int),
                        text@ == old_text + Seq::new(n as nat, |j: int| str_byte(mem, ptr, j)),
                        self.results@ == old_results + str_reads(mem, ptr, n as int),
                    decreases (if mem_index(ptr) + n <= MEMORY_SIZE { MEMORY_SIZE - (mem_index(ptr) + n) } else { MEMORY_SIZE + 1 }),
                {
                    let ghost prev_text = text@;
                    let ghost prev_results = self.results@;
                    let pos = ptr + n;
                    let b = match self.read_byte(pos) {
                        Ok(b) => b,
                        Err(e) => {
                            assert(!str_byte_in_bounds(mem, ptr, n as int));
                            return Err(e);
                        },
                    };
                    assert(str_reads(mem, ptr, n + 1) =~= str_reads(mem, ptr, n as int).push(
                        ExecResult::ReadByte { pos, value: b },
                    ));
                    if b == 0 {
                        return Ok(SysCall::PrintStr);
                    }
                    text.push(b);
                    assert(text@ =~= old_text + Seq::new((n + 1) as nat, |j: int| str_byte(mem, ptr, j)));
                    assert(str_prefix(mem, ptr, n + 1)) by {
                        assert forall|j: int| 0 <= j < n + 1 implies #[trigger] str_byte_in_bounds(mem, ptr, j)
                            && str_byte(mem, ptr, j) != 0 by {
                            if j < n {
                                assert(str_byte_in_bounds(mem, ptr, j));
                            }
                        }
                    }
                    proof {
                        let m = ptr as int + n + 1;
                        assert(m % 0x1000_0000 == mem_index(ptr) + n + 1 && m <= u32::MAX) by (nonlinear_arith)
                            requires
                                (ptr as int + n) % 0x1000_0000 == ptr as int % 0x1000_0000 + n,
                                ptr as int % 0x1000_0000 + n < MEMORY_SIZE,
                                ptr as int + n <= u32::MAX,
                                m == ptr as int + n + 1,
                                0 <= ptr,
                                0 <= n,
                        {
                        }
                    }
                    n = n + 1;
                }
            },
            2 => Ok(SysCall::PrintRegisters),
            _ => Err(ExecError::UnknownSys { comment }),
        }
    }
}

} // verus!
