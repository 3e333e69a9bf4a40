//! The machine as a mathematical value, and what each instruction and each
//! cycle makes of it. The interpreter's contracts are stated over this model.

use vstd::prelude::*;

use crate::cpu::CPUError;
use crate::fastrand::next_state;
use crate::opcodes::{
    address, nibble2, nibble3, nibble4, operands, Data, OpCode, OpCodeIdentity,
};

verus! {

/// The most instructions a program can hold: the program counter has 16
/// bits, and the place behind a skipped last instruction must fit in it.
pub const MAX_PROGRAM: usize = 0xFFFE;

/// The state of the machine.
pub struct Machine {
    /// The index in `program` of the next instruction.
    pub pc: u16,
    /// The sixteen registers `V0` to `VF`.
    pub registers: Seq<u8>,
    /// The index register `I`, of twelve bits.
    pub index: u16,
    /// The 4096 bytes of memory.
    pub memory: Seq<u8>,
    /// The return addresses, the most recent last.
    pub stack: Seq<u16>,
    /// The delay timer.
    pub delay: u8,
    /// The sound timer.
    pub sound: u8,
    /// The 2048 cells of the display, row by row, each 0 or 1.
    pub frame: Seq<u8>,
    /// Whether the last cycle drew on the display or cleared it.
    pub frame_changed: bool,
    /// The state of the random generator.
    pub seed: u64,
    /// The instructions.
    pub program: Seq<OpCode>,
}

/// The memory address `n` bytes after `index`; addresses wrap at 4096.
pub open spec fn address_after(index: u16, n: int) -> int {
    (index + n) % 4096
}

/// How far the address `a` lies after `index`, going round at 4096.
pub open spec fn offset_from(index: u16, a: int) -> int {
    (a - index) % 4096
}

/// Whether the bit of `byte` in `column` is set, column 0 being the most
/// significant bit.
pub open spec fn bit_at(byte: u8, column: u8) -> bool {
    byte & (0x80u8 >> column) != 0
}

/// A timer one cycle later: one less, and never below zero.
pub open spec fn decayed(timer: u8) -> u8 {
    if timer == 0 {
        0
    } else {
        (timer - 1) as u8
    }
}

/// A timer `n` cycles later.
pub open spec fn decayed_by(timer: u8, n: nat) -> u8
    decreases n,
{
    if n == 0 {
        timer
    } else {
        decayed(decayed_by(timer, (n - 1) as nat))
    }
}

/// Whether the sprite of `n` rows that `memory` holds at `index`, drawn with
/// its corner in column `vx` and row `vy`, covers cell `k` with a set bit.
/// Columns wrap at 64 and rows at 32.
pub open spec fn sprite_covers(memory: Seq<u8>, index: u16, vx: u8, vy: u8, n: u8, k: int) -> bool {
    let column = (k % 64 - vx) % 64;
    let row = (k / 64 - vy) % 32;
    column < 8 && row < n && bit_at(memory[address_after(index, row)], column as u8)
}

/// Whether that sprite covers a lit cell of `frame` with a set bit.
pub open spec fn sprite_collides(
    frame: Seq<u8>,
    memory: Seq<u8>,
    index: u16,
    vx: u8,
    vy: u8,
    n: u8,
) -> bool {
    exists|k: int|
        0 <= k < 2048 && frame[k] == 1 && #[trigger] sprite_covers(memory, index, vx, vy, n, k)
}

/// `frame` with that sprite drawn on it: every cell that a set bit covers is
/// flipped.
pub open spec fn drawn(frame: Seq<u8>, memory: Seq<u8>, index: u16, vx: u8, vy: u8, n: u8) -> Seq<
    u8,
> {
    Seq::new(
        2048,
        |k: int|
            if sprite_covers(memory, index, vx, vy, n, k) {
                (1 - frame[k]) as u8
            } else {
                frame[k]
            },
    )
}

/// `memory` with the registers `V0` up to `Vx` stored from `index` on.
pub open spec fn dumped(memory: Seq<u8>, registers: Seq<u8>, index: u16, x: u8) -> Seq<u8> {
    Seq::new(
        4096,
        |a: int|
            if offset_from(index, a) <= x {
                registers[offset_from(index, a)]
            } else {
                memory[a]
            },
    )
}

/// `registers` with `V0` up to `Vx` loaded from `memory` from `index` on.
pub open spec fn loaded(registers: Seq<u8>, memory: Seq<u8>, index: u16, x: u8) -> Seq<u8> {
    Seq::new(
        16,
        |i: int|
            if i <= x {
                memory[address_after(index, i)]
            } else {
                registers[i]
            },
    )
}

impl Machine {
    /// The sizes are those of the machine, every cell of the display is 0 or
    /// 1, the index register has twelve bits, and the stack and the program
    /// are within their limits.
    pub open spec fn wf(self) -> bool {
        &&& self.registers.len() == 16
        &&& self.memory.len() == 4096
        &&& self.stack.len() <= 48
        &&& self.frame.len() == 2048
        &&& forall|k: int| 0 <= k < 2048 ==> #[trigger] self.frame[k] <= 1
        &&& self.index <= 0xfff
        &&& self.program.len() <= MAX_PROGRAM
    }

    /// The machine as it is made: everything zero and empty but the program
    /// and the state of the random generator.
    pub open spec fn initial(program: Seq<OpCode>, seed: u64) -> Machine {
        Machine {
            pc: 0,
            registers: Seq::new(16, |i: int| 0u8),
            index: 0,
            memory: Seq::new(4096, |i: int| 0u8),
            stack: Seq::empty(),
            delay: 0,
            sound: 0,
            frame: Seq::new(2048, |i: int| 0u8),
            frame_changed: false,
            seed,
            program,
        }
    }

    /// The instruction that the program counter points at, if any.
    pub open spec fn fetch(self) -> Option<OpCode> {
        if self.pc < self.program.len() {
            Some(self.program[self.pc as int])
        } else {
            None
        }
    }

    /// The machine has run off the end of its program.
    pub open spec fn halted(self) -> bool {
        self.fetch() is None
    }

    /// The value of register `x`.
    pub open spec fn v(self, x: u8) -> u8 {
        self.registers[x as int]
    }

    /// With `value` in register `x`.
    pub open spec fn set_v(self, x: u8, value: u8) -> Machine {
        Machine { registers: self.registers.update(x as int, value), ..self }
    }

    /// With `value` in register `x` and then `flag` in `VF`.
    pub open spec fn set_v_then_flag(self, x: u8, value: u8, flag: u8) -> Machine {
        self.set_v(x, value).set_v(0xf, flag)
    }

    /// With `constant` added to register `x`, modulo 256; no flag is set.
    pub open spec fn add_constant(self, x: u8, constant: u8) -> Machine {
        self.set_v(x, ((self.v(x) + constant) % 256) as u8)
    }

    /// With register `y` added to register `x`, modulo 256, and then `VF`
    /// set to 1 if the sum exceeds 255, else to 0.
    pub open spec fn add_registers(self, x: u8, y: u8) -> Machine {
        self.set_v_then_flag(
            x,
            ((self.v(x) + self.v(y)) % 256) as u8,
            if self.v(x) + self.v(y) > 255 {
                1
            } else {
                0
            },
        )
    }

    /// With register `y` subtracted from register `x`, modulo 256, and then
    /// `VF` set to 1 if nothing was borrowed, else to 0.
    pub open spec fn subtract(self, x: u8, y: u8) -> Machine {
        self.set_v_then_flag(
            x,
            ((self.v(x) - self.v(y)) % 256) as u8,
            if self.v(x) >= self.v(y) {
                1
            } else {
                0
            },
        )
    }

    /// With register `x` set to register `y` less register `x`, modulo 256,
    /// and then `VF` set to 1 if nothing was borrowed, else to 0.
    pub open spec fn subtract_reversed(self, x: u8, y: u8) -> Machine {
        self.set_v_then_flag(
            x,
            ((self.v(y) - self.v(x)) % 256) as u8,
            if self.v(y) >= self.v(x) {
                1
            } else {
                0
            },
        )
    }

    /// With `VF` set to the lowest bit of register `x`, and then register
    /// `x` halved.
    pub open spec fn shift_right(self, x: u8) -> Machine {
        let flagged = self.set_v(0xf, self.v(x) % 2);
        flagged.set_v(x, flagged.v(x) / 2)
    }

    /// With `VF` set to the highest bit of register `x`, and then register
    /// `x` doubled, modulo 256.
    pub open spec fn shift_left(self, x: u8) -> Machine {
        let flagged = self.set_v(0xf, self.v(x) / 128);
        flagged.set_v(x, (flagged.v(x) * 2 % 256) as u8)
    }

    /// With the program counter at `target`.
    pub open spec fn jump(self, target: u16) -> Machine {
        Machine { pc: target, ..self }
    }

    /// With the program counter one further.
    pub open spec fn advance(self) -> Machine {
        Machine { pc: (self.pc + 1) as u16, ..self }
    }

    /// With the program counter one further if `condition` holds.
    pub open spec fn skip_if(self, condition: bool) -> Machine {
        if condition {
            self.advance()
        } else {
            self
        }
    }

    /// With the program counter pushed and then set to `target`.
    pub open spec fn call(self, target: u16) -> Machine {
        Machine { stack: self.stack.push(self.pc), pc: target, ..self }
    }

    /// With the program counter popped off the stack.
    pub open spec fn ret(self) -> Machine {
        Machine { pc: self.stack.last(), stack: self.stack.drop_last(), ..self }
    }

    /// With every cell of the display dark.
    pub open spec fn clear_display(self) -> Machine {
        Machine { frame: Seq::new(2048, |k: int| 0u8), frame_changed: true, ..self }
    }

    /// With the sprite of `n` rows at `I` drawn at the place that registers
    /// `x` and `y` name: every cell that a set bit covers is flipped, and `VF`
    /// says whether any lit cell went dark.
    pub open spec fn draw(self, x: u8, y: u8, n: u8) -> Machine {
        let vx = self.v(x);
        let vy = self.v(y);
        Machine {
            frame: drawn(self.frame, self.memory, self.index, vx, vy, n),
            frame_changed: true,
            registers: self.registers.update(
                0xf,
                if sprite_collides(self.frame, self.memory, self.index, vx, vy, n) {
                    1u8
                } else {
                    0u8
                },
            ),
            ..self
        }
    }

    /// With the three decimal digits of `value` at `I`, `I + 1` and `I + 2`.
    pub open spec fn store_bcd(self, value: u8) -> Machine {
        Machine {
            memory: self.memory.update(address_after(self.index, 0), value / 100).update(
                address_after(self.index, 1),
                value / 10 % 10,
            ).update(address_after(self.index, 2), value % 10),
            ..self
        }
    }

    /// With `V0` up to register `x` stored in memory from `I` on.
    pub open spec fn dump_registers(self, x: u8) -> Machine {
        Machine { memory: dumped(self.memory, self.registers, self.index, x), ..self }
    }

    /// With `V0` up to register `x` loaded from memory from `I` on.
    pub open spec fn load_registers(self, x: u8) -> Machine {
        Machine { registers: loaded(self.registers, self.memory, self.index, x), ..self }
    }

    /// The fault that `oc` runs into, if it does: a call on a full stack, a
    /// return on an empty one, or an instruction that this machine does not
    /// implement.
    pub open spec fn fault(self, oc: OpCode) -> Option<CPUError> {
        match oc.oc_id {
            OpCodeIdentity::CallMach
            | OpCodeIdentity::SkipKeyPressedR
            | OpCodeIdentity::SkipNKeyPressedR
            | OpCodeIdentity::AwaitGetKeyDownR
            | OpCodeIdentity::SetAddrRegSpriteR => Some(CPUError::NotImplemented),
            OpCodeIdentity::CallSub => if self.stack.len() >= 48 {
                Some(CPUError::StackOverflow)
            } else {
                None
            },
            OpCodeIdentity::RetSub => if self.stack.len() == 0 {
                Some(CPUError::StackUnderflow)
            } else {
                None
            },
            _ => None,
        }
    }

    /// What `oc` makes of a machine whose program counter already points
    /// behind it, where it runs into no fault.
    pub open spec fn apply(self, oc: OpCode) -> Machine {
        match (oc.oc_id, operands(oc.oc_id, oc.op_code)) {
            (OpCodeIdentity::ClrDisp, _) => self.clear_display(),
            (OpCodeIdentity::RetSub, _) => self.ret(),
            (OpCodeIdentity::JumpAddr, Data::NNN(address)) => self.jump(address),
            (OpCodeIdentity::CallSub, Data::NNN(address)) => self.call(address),
            (OpCodeIdentity::SkipEqRC, Data::XNN(x, constant)) => self.skip_if(
                self.v(x) == constant,
            ),
            (OpCodeIdentity::SkipNqRC, Data::XNN(x, constant)) => self.skip_if(
                self.v(x) != constant,
            ),
            (OpCodeIdentity::SkipEqRR, Data::XY(x, y)) => self.skip_if(self.v(x) == self.v(y)),
            (OpCodeIdentity::SkipNqRR, Data::XY(x, y)) => self.skip_if(self.v(x) != self.v(y)),
            (OpCodeIdentity::SetRC, Data::XNN(x, constant)) => self.set_v(x, constant),
            (OpCodeIdentity::AddNcRC, Data::XNN(x, constant)) => self.add_constant(x, constant),
            (OpCodeIdentity::SetRR, Data::XY(x, y)) => self.set_v(x, self.v(y)),
            (OpCodeIdentity::OrRR, Data::XY(x, y)) => self.set_v(x, self.v(x) | self.v(y)),
            (OpCodeIdentity::AndRR, Data::XY(x, y)) => self.set_v(x, self.v(x) & self.v(y)),
            (OpCodeIdentity::XorRR, Data::XY(x, y)) => self.set_v(x, self.v(x) ^ self.v(y)),
            (OpCodeIdentity::AddRR, Data::XY(x, y)) => self.add_registers(x, y),
            (OpCodeIdentity::SubRRR, Data::XY(x, y)) => self.subtract(x, y),
            (OpCodeIdentity::SubLRR, Data::XY(x, y)) => self.subtract_reversed(x, y),
            (OpCodeIdentity::RshiftR, Data::X(x)) => self.shift_right(x),
            (OpCodeIdentity::LshiftR, Data::X(x)) => self.shift_left(x),
            (OpCodeIdentity::SetAddrRegC, Data::NNN(address)) => Machine { index: address, ..self },
            (OpCodeIdentity::JumpAddrCR, Data::NNN(address)) => self.jump(
                (self.v(0) + address) as u16,
            ),
            (OpCodeIdentity::RandRC, Data::XNN(x, constant)) => {
                let drawn = next_state(self.seed);
                Machine { seed: drawn, ..self }.set_v(x, (drawn % 256) as u8 & constant)
            },
            (OpCodeIdentity::DrawDispRRC, Data::XYN(x, y, n)) => self.draw(x, y, n),
            (OpCodeIdentity::GetDelayR, Data::X(x)) => self.set_v(x, self.delay),
            (OpCodeIdentity::SetDelayR, Data::X(x)) => Machine { delay: self.v(x), ..self },
            (OpCodeIdentity::SetSoundR, Data::X(x)) => Machine { sound: self.v(x), ..self },
            (OpCodeIdentity::AddAddrRegR, Data::X(x)) => Machine {
                index: ((self.index + self.v(x)) % 4096) as u16,
                ..self
            },
            (OpCodeIdentity::SetBcdR, Data::X(x)) => self.store_bcd(self.v(x)),
            (OpCodeIdentity::DumpRegsToMemR, Data::X(x)) => self.dump_registers(x),
            (OpCodeIdentity::LoadRegsFromMemR, Data::X(x)) => self.load_registers(x),
            _ => self,
        }
    }

    /// What executing `oc` gives: its fault, or the machine with the program
    /// counter advanced and the instruction applied.
    pub open spec fn execute(self, oc: OpCode) -> Result<Machine, CPUError> {
        match self.fault(oc) {
            Some(e) => Err(e),
            None => Ok(self.advance().apply(oc)),
        }
    }

    /// With both timers one cycle later.
    pub open spec fn tick(self) -> Machine {
        Machine { delay: decayed(self.delay), sound: decayed(self.sound), ..self }
    }

    /// The machine with no mark of a changed frame.
    pub open spec fn unmarked(self) -> Machine {
        Machine { frame_changed: false, ..self }
    }

    /// The fault of the cycle that comes next, if it faults.
    pub open spec fn cycle_fault(self) -> Option<CPUError> {
        match self.fetch() {
            Some(oc) => self.fault(oc),
            None => None,
        }
    }

    /// The machine one cycle later. A halted machine and one whose next
    /// instruction faults stay as they are; else the instruction is executed
    /// and the timers decay.
    pub open spec fn cycle(self) -> Machine {
        match self.fetch() {
            Some(oc) => match self.unmarked().execute(oc) {
                Ok(next) => next.tick(),
                Err(_) => self.unmarked(),
            },
            None => self.unmarked(),
        }
    }
}

/// A timer that stood at `timer` stands at `timer - n` after `n` cycles, and
/// at zero once `n` has reached `timer`: it never wraps.
pub proof fn lemma_timer_decay(timer: u8, n: nat)
    ensures
        decayed_by(timer, n) == if n <= timer {
            timer - n
        } else {
            0
        },
    decreases n,
{
    if n > 0 {
        lemma_timer_decay(timer, (n - 1) as nat);
    }
}

/// A cycle that executes an instruction lets both timers decay by one,
/// unless the instruction is the one that sets that timer.
pub proof fn lemma_cycle_decays_timers(m: Machine)
    requires
        m.wf(),
        m.fetch() is Some,
        m.cycle_fault() is None,
    ensures
        m.fetch()->0.oc_id != OpCodeIdentity::SetDelayR ==> m.cycle().delay == decayed(m.delay),
        m.fetch()->0.oc_id != OpCodeIdentity::SetSoundR ==> m.cycle().sound == decayed(m.sound),
{
}

/// Every cycle leaves the machine well formed: the stack never holds more
/// than 48 addresses, the index register keeps to twelve bits, every cell of
/// the display stays 0 or 1, and the sizes and the program stay as they are.
pub proof fn lemma_cycle_keeps_wf(m: Machine)
    requires
        m.wf(),
    ensures
        m.cycle().wf(),
        m.cycle().program == m.program,
{
    match m.fetch() {
        Some(oc) => {
            crate::opcodes::lemma_operands_in_range(oc.oc_id, oc.op_code);
        },
        None => {},
    }
}

/// After an addition of two registers `VF` is 1 if their sum exceeds 255 and
/// 0 if not, whichever registers they are.
pub proof fn lemma_add_sets_carry(m: Machine, x: u8, y: u8)
    requires
        m.wf(),
        x <= 0xf,
        y <= 0xf,
    ensures
        m.add_registers(x, y).v(0xf) == 1 <==> m.v(x) + m.v(y) > 255,
        m.add_registers(x, y).v(0xf) == 0 <==> m.v(x) + m.v(y) <= 255,
        x != 0xf ==> m.add_registers(x, y).v(x) == (m.v(x) + m.v(y)) % 256,
{
}

/// After a subtraction `VF` is 1 if the register subtracted from was at
/// least the other, and 0 if not.
pub proof fn lemma_subtract_sets_no_borrow(m: Machine, x: u8, y: u8)
    requires
        m.wf(),
        x <= 0xf,
        y <= 0xf,
    ensures
        m.subtract(x, y).v(0xf) == 1 <==> m.v(x) >= m.v(y),
        m.subtract(x, y).v(0xf) == 0 <==> m.v(x) < m.v(y),
        m.subtract_reversed(x, y).v(0xf) == 1 <==> m.v(y) >= m.v(x),
        m.subtract_reversed(x, y).v(0xf) == 0 <==> m.v(y) < m.v(x),
{
}

/// The three instructions with a flag, as the machine executes them: they
/// never fault, and `VF` is the carry of the addition, or says that the
/// subtraction did not borrow.
pub proof fn lemma_flags(m: Machine, oc: OpCode)
    requires
        m.wf(),
    ensures
        ({
            let a = m.v(nibble2(oc.op_code));
            let b = m.v(nibble3(oc.op_code));
            &&& oc.oc_id == OpCodeIdentity::AddRR ==> m.execute(oc) is Ok && (m.execute(oc)->Ok_0.v(
                0xf,
            ) == 1 <==> a + b > 255) && m.execute(oc)->Ok_0.v(0xf) <= 1
            &&& oc.oc_id == OpCodeIdentity::SubRRR ==> m.execute(oc) is Ok && (m.execute(
                oc,
            )->Ok_0.v(0xf) == 1 <==> a >= b) && m.execute(oc)->Ok_0.v(0xf) <= 1
            &&& oc.oc_id == OpCodeIdentity::SubLRR ==> m.execute(oc) is Ok && (m.execute(
                oc,
            )->Ok_0.v(0xf) == 1 <==> b >= a) && m.execute(oc)->Ok_0.v(0xf) <= 1
        }),
{
    crate::opcodes::lemma_operands_in_range(oc.oc_id, oc.op_code);
}

/// A return restores the program counter that the matching call pushed: a
/// call on a stack with room, followed by a return, leaves the stack as it
/// was and the program counter behind the call.
pub proof fn lemma_return_undoes_call(m: Machine, call: OpCode, ret: OpCode)
    requires
        m.wf(),
        m.fetch() is Some,
        m.stack.len() < 48,
        call.oc_id == OpCodeIdentity::CallSub,
        ret.oc_id == OpCodeIdentity::RetSub,
    ensures
        m.execute(call) is Ok,
        m.execute(call)->Ok_0.pc == address(call.op_code),
        m.execute(call)->Ok_0.stack == m.stack.push((m.pc + 1) as u16),
        m.execute(call)->Ok_0.execute(ret) is Ok,
        m.execute(call)->Ok_0.execute(ret)->Ok_0.pc == m.pc + 1,
        m.execute(call)->Ok_0.execute(ret)->Ok_0.stack == m.stack,
{
    let called = m.execute(call)->Ok_0;
    assert(called.stack.drop_last() =~= m.stack);
}

/// A call faults with `StackOverflow` exactly on a full stack, and a return
/// with `StackUnderflow` exactly on an empty one; the stack of a well-formed
/// machine is full at 48 addresses.
pub proof fn lemma_stack_faults(m: Machine, oc: OpCode)
    requires
        m.wf(),
    ensures
        oc.oc_id == OpCodeIdentity::CallSub ==> (m.execute(oc) == Err::<Machine, CPUError>(
            CPUError::StackOverflow,
        ) <==> m.stack.len() == 48),
        oc.oc_id == OpCodeIdentity::CallSub ==> (m.execute(oc) is Ok <==> m.stack.len() < 48),
        oc.oc_id == OpCodeIdentity::RetSub ==> (m.execute(oc) == Err::<Machine, CPUError>(
            CPUError::StackUnderflow,
        ) <==> m.stack.len() == 0),
        oc.oc_id == OpCodeIdentity::RetSub ==> (m.execute(oc) is Ok <==> m.stack.len() > 0),
{
}

impl Machine {
    /// The machine after `n` returns in a row.
    pub open spec fn after_returns(self, n: nat) -> Machine
        decreases n,
    {
        if n == 0 {
            self
        } else {
            self.ret().after_returns((n - 1) as nat)
        }
    }
}

/// Returns come in the reverse order of their calls, however deep the
/// nesting: where calls have pushed `pushed` onto `base`, the `k`-th return
/// in a row jumps to the address that the `k`-th most recent call pushed,
/// and takes just that address off the stack.
pub proof fn lemma_returns_unwind_calls(m: Machine, base: Seq<u16>, pushed: Seq<u16>, k: nat)
    requires
        m.stack == base + pushed,
        1 <= k <= pushed.len(),
    ensures
        m.after_returns(k).pc == pushed[pushed.len() - k],
        m.after_returns(k).stack == base + pushed.take(pushed.len() - k),
    decreases k,
{
    let once = m.ret();
    assert(once.stack =~= base + pushed.drop_last());
    assert(once.pc == pushed.last());
    if k == 1 {
        assert(m.after_returns(1) == once.after_returns(0));
        assert(pushed.drop_last() =~= pushed.take(pushed.len() - 1));
    } else {
        lemma_returns_unwind_calls(once, base, pushed.drop_last(), (k - 1) as nat);
        assert(pushed.drop_last().take(pushed.len() - k) =~= pushed.take(pushed.len() - k));
    }
}

/// Clearing the display never faults, leaves all 2048 cells dark and marks
/// the frame as changed.
pub proof fn lemma_clear_display(m: Machine, oc: OpCode)
    requires
        m.wf(),
        oc.oc_id == OpCodeIdentity::ClrDisp,
    ensures
        m.execute(oc) is Ok,
        m.execute(oc)->Ok_0.frame.len() == 2048,
        forall|k: int| 0 <= k < 2048 ==> #[trigger] m.execute(oc)->Ok_0.frame[k] == 0,
        m.execute(oc)->Ok_0.frame_changed,
{
}

/// Drawing never faults, always marks the frame as changed, and sets `VF`
/// to 1 exactly when one of the flipped cells was lit.
pub proof fn lemma_draw(m: Machine, oc: OpCode)
    requires
        m.wf(),
        oc.oc_id == OpCodeIdentity::DrawDispRRC,
    ensures
        m.execute(oc) is Ok,
        m.execute(oc)->Ok_0.frame_changed,
        m.execute(oc)->Ok_0.v(0xf) == 1 <==> sprite_collides(
            m.frame,
            m.memory,
            m.index,
            m.v(nibble2(oc.op_code)),
            m.v(nibble3(oc.op_code)),
            nibble4(oc.op_code),
        ),
        m.execute(oc)->Ok_0.v(0xf) <= 1,
{
}

/// Drawing the same sprite twice at the same place gives back the frame
/// that was there before.
pub proof fn lemma_draw_twice(frame: Seq<u8>, memory: Seq<u8>, index: u16, vx: u8, vy: u8, n: u8)
    requires
        frame.len() == 2048,
        forall|k: int| 0 <= k < 2048 ==> #[trigger] frame[k] <= 1,
    ensures
        drawn(drawn(frame, memory, index, vx, vy, n), memory, index, vx, vy, n) == frame,
{
    assert(drawn(drawn(frame, memory, index, vx, vy, n), memory, index, vx, vy, n) =~= frame);
}

/// Storing `V0` up to `Vx` at `I` and loading them back from there gives
/// the registers that were stored, whatever the registers held in between
/// and wherever `I` points, even across the end of memory.
pub proof fn lemma_load_undoes_dump(m: Machine, x: u8, between: Seq<u8>)
    requires
        m.wf(),
        x <= 0xf,
        between.len() == 16,
    ensures
        ({
            let stored = m.dump_registers(x);
            let back = (Machine { registers: between, ..stored }).load_registers(x);
            &&& forall|i: int| 0 <= i <= x ==> #[trigger] back.registers[i] == m.registers[i]
            &&& forall|i: int| x < i < 16 ==> #[trigger] back.registers[i] == between[i]
            &&& x == 0xf ==> back.registers == m.registers
            &&& back.memory == stored.memory
        }),
{
    let stored = m.dump_registers(x);
    let back = (Machine { registers: between, ..stored }).load_registers(x);
    assert forall|i: int| 0 <= i <= x implies #[trigger] back.registers[i] == m.registers[i] by {
        let a = address_after(m.index, i);
        assert(offset_from(m.index, a) == i);
    }
    if x == 0xf {
        assert(back.registers =~= m.registers);
    }
}

} // verus!
