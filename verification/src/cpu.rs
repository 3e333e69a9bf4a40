//! The interpreter: the machine's state in fixed-size arrays, and the cycle
//! that fetches one instruction, executes it and lets the timers decay.

use vstd::prelude::*;

use crate::display::cell;
use crate::fastrand::{next_state, Rand};
use crate::machine::{
    address_after, bit_at, drawn, dumped, loaded, offset_from, sprite_collides, sprite_covers,
    Machine, MAX_PROGRAM,
};
use crate::opcodes::{operands, Data, OpCode, OpCodeIdentity};

verus! {

/// A fault that stops the machine.
#[derive(Debug, Clone, Copy, PartialEq, Eq, Structural)]
pub enum CPUError {
    /// A subroutine call with 48 return addresses on the stack already.
    StackOverflow,
    /// A return with no return address on the stack.
    StackUnderflow,
    /// An instruction that this machine does not implement.
    NotImplemented,
}

/// The call stack: up to 48 return addresses.
#[derive(Debug, Clone, Copy)]
pub struct Stack {
    pub(crate) head: u8,
    pub(crate) data: [u16; 48],
}

impl View for Stack {
    type V = Seq<u16>;

    /// The return addresses on the stack, the most recent last.
    closed spec fn view(&self) -> Seq<u16> {
        self.data@.subrange(0, self.head as int)
    }
}

impl Default for Stack {
    fn default() -> (stack: Self)
        ensures
            stack@ == Seq::<u16>::empty(),
    {
        Self { head: 0, data: [0;48] }
    }
}

impl Stack {
    #[verifier::type_invariant]
    spec fn within_capacity(self) -> bool {
        self.head <= 48
    }

    /// The number of addresses on the stack.
    pub fn depth(&self) -> (depth: usize)
        ensures
            depth == self@.len(),
            depth <= 48,
    {
        proof {
            use_type_invariant(self);
        }
        self.head as usize
    }

    /// The address at `position`, counted from the oldest, if there is one.
    pub fn get(&self, position: usize) -> (address: Option<u16>)
        ensures
            address == if position < self@.len() {
                Some(self@[position as int])
            } else {
                None
            },
    {
        proof {
            use_type_invariant(self);
        }
        if position < self.head as usize {
            Some(self.data[position])
        } else {
            None
        }
    }

    /// Takes the most recent address off the stack; `None`, and the stack
    /// unchanged, where it is empty.
    pub fn pop(&mut self) -> (popped: Option<u16>)
        ensures
            old(self)@.len() == 0 ==> popped is None && final(self)@ == old(self)@,
            old(self)@.len() > 0 ==> popped == Some(old(self)@.last()) && final(self)@ == old(
                self,
            )@.drop_last(),
        no_unwind
    {
        proof {
            use_type_invariant(&*self);
        }
        if self.head == 0 {
            return None;
        }
        self.head -= 1;
        let data: u16 = self.data[self.head as usize];
        return Some(data);
    }

    /// Puts `data` on the stack; `None`, and the stack unchanged, where it
    /// holds 48 addresses already.
    pub fn push(&mut self, data: u16) -> (pushed: Option<()>)
        ensures
            old(self)@.len() >= 48 ==> pushed is None && final(self)@ == old(self)@,
            old(self)@.len() < 48 ==> pushed is Some && final(self)@ == old(self)@.push(data),
        no_unwind
    {
        proof {
            use_type_invariant(&*self);
        }
        if self.head == 48 {
            return None;
        }
        self.data[self.head as usize] = data;
        self.head += 1;
        return Some(());
    }
}

/// Whether drawing has reached cell `k`: a set bit of the sprite covers it,
/// in a row before `r`, or in row `r` and a column before `c`.
spec fn painted(
    memory: Seq<u8>,
    index: u16,
    vx: u8,
    vy: u8,
    n: u8,
    r: int,
    c: int,
    k: int,
) -> bool {
    let column = (k % 64 - vx) % 64;
    let row = (k / 64 - vy) % 32;
    sprite_covers(memory, index, vx, vy, n, k) && (row < r || (row == r && column < c))
}

/// The frame when drawing has come to column `c` of row `r`.
spec fn partly_drawn(
    frame: Seq<u8>,
    memory: Seq<u8>,
    index: u16,
    vx: u8,
    vy: u8,
    n: u8,
    r: int,
    c: int,
) -> Seq<u8> {
    Seq::new(
        2048,
        |k: int|
            if painted(memory, index, vx, vy, n, r, c, k) {
                (1 - frame[k]) as u8
            } else {
                frame[k]
            },
    )
}

/// Whether drawing has put out a lit cell on its way to column `c` of row `r`.
spec fn collided(
    frame: Seq<u8>,
    memory: Seq<u8>,
    index: u16,
    vx: u8,
    vy: u8,
    n: u8,
    r: int,
    c: int,
) -> bool {
    exists|k: int|
        0 <= k < 2048 && frame[k] == 1 && #[trigger] painted(memory, index, vx, vy, n, r, c, k)
}

/// The cell that column `c` of row `r` of a sprite falls on is reached at
/// that step and at no other, and no other cell is reached at that step.
proof fn lemma_paint_step(memory: Seq<u8>, index: u16, vx: u8, vy: u8, n: u8, r: int, c: int)
    requires
        0 <= r < n <= 32,
        0 <= c < 8,
    ensures
        ({
            let at = cell((vx + c) % 64, (vy + r) % 32);
            &&& 0 <= at < 2048
            &&& !painted(memory, index, vx, vy, n, r, c, at)
            &&& forall|k: int|
                0 <= k < 2048 ==> (#[trigger] painted(memory, index, vx, vy, n, r, c + 1, k) <==> (
                painted(memory, index, vx, vy, n, r, c, k) || (k == at && bit_at(
                    memory[address_after(index, r)],
                    c as u8,
                ))))
        }),
{
    let at = cell((vx + c) % 64, (vy + r) % 32);
    assert(at % 64 == (vx + c) % 64);
    assert(at / 64 == (vy + r) % 32);
    assert((at % 64 - vx) % 64 == c);
    assert((at / 64 - vy) % 32 == r);
    assert forall|k: int| 0 <= k < 2048 implies (#[trigger] painted(
        memory,
        index,
        vx,
        vy,
        n,
        r,
        c + 1,
        k,
    ) <==> (painted(memory, index, vx, vy, n, r, c, k) || (k == at && bit_at(
        memory[address_after(index, r)],
        c as u8,
    )))) by {
        let column = (k % 64 - vx) % 64;
        let row = (k / 64 - vy) % 32;
        if row == r && column == c {
            assert(k % 64 == (vx + c) % 64);
            assert(k / 64 == (vy + r) % 32);
            assert(k == at);
        }
    }
}

/// A step of drawing puts out a lit cell exactly when its bit is set and
/// the cell it falls on was lit.
proof fn lemma_collided_step(
    frame: Seq<u8>,
    memory: Seq<u8>,
    index: u16,
    vx: u8,
    vy: u8,
    n: u8,
    r: int,
    c: int,
)
    requires
        0 <= r < n <= 32,
        0 <= c < 8,
    ensures
        collided(frame, memory, index, vx, vy, n, r, c + 1) <==> (collided(
            frame,
            memory,
            index,
            vx,
            vy,
            n,
            r,
            c,
        ) || (frame[cell((vx + c) % 64, (vy + r) % 32)] == 1 && bit_at(
            memory[address_after(index, r)],
            c as u8,
        ))),
{
    lemma_paint_step(memory, index, vx, vy, n, r, c);
    let at = cell((vx + c) % 64, (vy + r) % 32);
    if collided(frame, memory, index, vx, vy, n, r, c) {
        let k = choose|k: int|
            0 <= k < 2048 && frame[k] == 1 && #[trigger] painted(memory, index, vx, vy, n, r, c, k);
        assert(painted(memory, index, vx, vy, n, r, c + 1, k));
    }
    if frame[at] == 1 && bit_at(memory[address_after(index, r)], c as u8) {
        assert(painted(memory, index, vx, vy, n, r, c + 1, at));
    }
    if collided(frame, memory, index, vx, vy, n, r, c + 1) {
        let k = choose|k: int|
            0 <= k < 2048 && frame[k] == 1 && #[trigger] painted(
                memory,
                index,
                vx,
                vy,
                n,
                r,
                c + 1,
                k,
            );
        if k != at {
            assert(painted(memory, index, vx, vy, n, r, c, k));
        }
    }
}

/// When a row is done, drawing stands at the start of the next.
proof fn lemma_paint_row(frame: Seq<u8>, memory: Seq<u8>, index: u16, vx: u8, vy: u8, n: u8, r: int)
    ensures
        partly_drawn(frame, memory, index, vx, vy, n, r, 8) == partly_drawn(
            frame,
            memory,
            index,
            vx,
            vy,
            n,
            r + 1,
            0,
        ),
        collided(frame, memory, index, vx, vy, n, r, 8) == collided(
            frame,
            memory,
            index,
            vx,
            vy,
            n,
            r + 1,
            0,
        ),
{
    assert forall|k: int|
        painted(memory, index, vx, vy, n, r, 8, k) == painted(
            memory,
            index,
            vx,
            vy,
            n,
            r + 1,
            0,
            k,
        ) by {}
    assert(partly_drawn(frame, memory, index, vx, vy, n, r, 8) =~= partly_drawn(
        frame,
        memory,
        index,
        vx,
        vy,
        n,
        r + 1,
        0,
    ));
    if collided(frame, memory, index, vx, vy, n, r, 8) {
        let k = choose|k: int|
            0 <= k < 2048 && frame[k] == 1 && #[trigger] painted(memory, index, vx, vy, n, r, 8, k);
        assert(painted(memory, index, vx, vy, n, r + 1, 0, k));
    }
    if collided(frame, memory, index, vx, vy, n, r + 1, 0) {
        let k = choose|k: int|
            0 <= k < 2048 && frame[k] == 1 && #[trigger] painted(
                memory,
                index,
                vx,
                vy,
                n,
                r + 1,
                0,
                k,
            );
        assert(painted(memory, index, vx, vy, n, r, 8, k));
    }
}

/// When all rows are done, the sprite is drawn.
proof fn lemma_paint_done(frame: Seq<u8>, memory: Seq<u8>, index: u16, vx: u8, vy: u8, n: u8)
    ensures
        partly_drawn(frame, memory, index, vx, vy, n, n as int, 0) == drawn(
            frame,
            memory,
            index,
            vx,
            vy,
            n,
        ),
        collided(frame, memory, index, vx, vy, n, n as int, 0) == sprite_collides(
            frame,
            memory,
            index,
            vx,
            vy,
            n,
        ),
        partly_drawn(frame, memory, index, vx, vy, n, 0, 0) == Seq::new(2048, |k: int| frame[k]),
        !collided(frame, memory, index, vx, vy, n, 0, 0),
{
    assert forall|k: int|
        painted(memory, index, vx, vy, n, n as int, 0, k) == sprite_covers(
            memory,
            index,
            vx,
            vy,
            n,
            k,
        ) by {}
    assert(partly_drawn(frame, memory, index, vx, vy, n, n as int, 0) =~= drawn(
        frame,
        memory,
        index,
        vx,
        vy,
        n,
    ));
    if collided(frame, memory, index, vx, vy, n, n as int, 0) {
        let k = choose|k: int|
            0 <= k < 2048 && frame[k] == 1 && #[trigger] painted(
                memory,
                index,
                vx,
                vy,
                n,
                n as int,
                0,
                k,
            );
        assert(sprite_covers(memory, index, vx, vy, n, k));
    }
    if sprite_collides(frame, memory, index, vx, vy, n) {
        let k = choose|k: int|
            0 <= k < 2048 && frame[k] == 1 && #[trigger] sprite_covers(memory, index, vx, vy, n, k);
        assert(painted(memory, index, vx, vy, n, n as int, 0, k));
    }
    assert(partly_drawn(frame, memory, index, vx, vy, n, 0, 0) =~= Seq::new(
        2048,
        |k: int| frame[k],
    ));
}

/// The framebuffer: 64 by 32 cells, row by row, each 0 or 1.
pub struct VRAM {
    data: [u8; 2048],
}

impl View for VRAM {
    type V = Seq<u8>;

    closed spec fn view(&self) -> Seq<u8> {
        self.data@
    }
}

impl Default for VRAM {
    fn default() -> (vram: Self)
        ensures
            vram@ == Seq::new(2048, |k: int| 0u8),
    {
        let vram = Self { data: [0;2048] };
        assert(vram@ =~= Seq::new(2048, |k: int| 0u8));
        vram
    }
}

impl VRAM {
    #[verifier::type_invariant]
    spec fn one_bit_cells(self) -> bool {
        forall|k: int| 0 <= k < 2048 ==> #[trigger] self.data@[k] <= 1
    }

    /// The cells, row by row.
    pub fn cells(&self) -> (cells: &[u8])
        ensures
            cells@ == self@,
            cells@.len() == 2048,
            forall|k: int| 0 <= k < 2048 ==> #[trigger] cells@[k] <= 1,
    {
        proof {
            use_type_invariant(self);
        }
        &self.data
    }

    /// Makes every cell dark.
    pub fn clear(&mut self)
        ensures
            final(self)@ == Seq::new(2048, |k: int| 0u8),
        no_unwind
    {
        proof {
            use_type_invariant(&*self);
        }
        let mut k: usize = 0;
        while k < 2048
            invariant
                k <= 2048,
                forall|j: int| 0 <= j < k ==> self.data@[j] == 0,
                forall|j: int| 0 <= j < 2048 ==> #[trigger] self.data@[j] <= 1,
            decreases 2048 - k,
        {
            self.data[k] = 0;
            k += 1;
        }
        assert(self@ =~= Seq::new(2048, |k: int| 0u8));
    }

    /// Draws the sprite of `height` rows that `memory` holds at `index`, with
    /// its corner in column `vx` and row `vy`: each set bit flips the cell it
    /// falls on, columns taken modulo 64 and rows modulo 32. Says whether any
    /// lit cell went dark.
    pub fn draw(&mut self, memory: &[u8; 4096], index: u16, vx: u8, vy: u8, height: u8) -> (collision:
        bool)
        requires
            height <= 32,
        ensures
            final(self)@ == drawn(old(self)@, memory@, index, vx, vy, height),
            collision == sprite_collides(old(self)@, memory@, index, vx, vy, height),
        no_unwind
    {
        proof {
            use_type_invariant(&*self);
        }
        let ghost frame = self@;
        let mut collision = false;
        let mut yline: u8 = 0;
        proof {
            lemma_paint_done(frame, memory@, index, vx, vy, height);
            assert(self@ =~= Seq::new(2048, |k: int| frame[k]));
        }
        while yline < height
            invariant
                yline <= height <= 32,
                frame.len() == 2048,
                self@ == partly_drawn(frame, memory@, index, vx, vy, height, yline as int, 0),
                collision == collided(frame, memory@, index, vx, vy, height, yline as int, 0),
            decreases height - yline,
        {
            let pixel: u8 = memory[(index as usize + yline as usize) % 4096];
            let mut xline: u8 = 0;
            while xline < 8
                invariant
                    xline <= 8,
                    yline < height <= 32,
                    frame.len() == 2048,
                    pixel == memory@[address_after(index, yline as int)],
                    self@ == partly_drawn(
                        frame,
                        memory@,
                        index,
                        vx,
                        vy,
                        height,
                        yline as int,
                        xline as int,
                    ),
                    collision == collided(
                        frame,
                        memory@,
                        index,
                        vx,
                        vy,
                        height,
                        yline as int,
                        xline as int,
                    ),
                decreases 8 - xline,
            {
                proof {
                    lemma_paint_step(memory@, index, vx, vy, height, yline as int, xline as int);
                    lemma_collided_step(
                        frame,
                        memory@,
                        index,
                        vx,
                        vy,
                        height,
                        yline as int,
                        xline as int,
                    );
                }
                if (pixel & (0x80u8 >> xline)) != 0 {
                    if self.flip(vx as usize + xline as usize, vy as usize + yline as usize) {
                        collision = true;
                    }
                }
                assert(self@ =~= partly_drawn(
                    frame,
                    memory@,
                    index,
                    vx,
                    vy,
                    height,
                    yline as int,
                    xline + 1,
                ));
                xline += 1;
            }
            proof {
                lemma_paint_row(frame, memory@, index, vx, vy, height, yline as int);
            }
            yline += 1;
        }
        proof {
            lemma_paint_done(frame, memory@, index, vx, vy, height);
        }
        return collision;
    }

    /// Flips the cell in column `x` and row `y`, columns taken modulo 64 and
    /// rows modulo 32, and says whether a lit cell went dark.
    pub fn flip(&mut self, x: usize, y: usize) -> (collision: bool)
        ensures
            final(self)@ == old(self)@.update(
                cell(x as int % 64, y as int % 32),
                (1 - old(self)@[cell(x as int % 64, y as int % 32)]) as u8,
            ),
            collision == (old(self)@[cell(x as int % 64, y as int % 32)] == 1),
        no_unwind
    {
        proof {
            use_type_invariant(&*self);
        }
        let at: usize = x % 64 + (y % 32) * 64;
        let before: u8 = self.data[at];
        assert(before ^ 1 == 1 - before) by (bit_vector)
            requires
                before <= 1,
        ;
        self.data[at] = before ^ 1;
        return self.data[at] == 0;
    }
}

/// `memory` with the first `count` registers stored from `index` on.
spec fn stored(memory: Seq<u8>, registers: Seq<u8>, index: u16, count: int) -> Seq<u8> {
    Seq::new(
        4096,
        |a: int|
            if offset_from(index, a) < count {
                registers[offset_from(index, a)]
            } else {
                memory[a]
            },
    )
}

/// `registers` with the first `count` of them loaded from `memory` from
/// `index` on.
spec fn fetched(registers: Seq<u8>, memory: Seq<u8>, index: u16, count: int) -> Seq<u8> {
    Seq::new(
        16,
        |i: int|
            if i < count {
                memory[address_after(index, i)]
            } else {
                registers[i]
            },
    )
}

/// Stores `V0` up to `Vx` in `memory` from `index` on, addresses taken
/// modulo 4096.
fn dump(memory: &mut [u8; 4096], registers: &[u8; 16], index: u16, x: u8)
    requires
        x <= 0xf,
    ensures
        final(memory)@ == dumped(old(memory)@, registers@, index, x),
    no_unwind
{
    let ghost before = memory@;
    let mut i: u8 = 0;
    assert(memory@ =~= stored(before, registers@, index, 0));
    while i <= x
        invariant
            i <= x + 1,
            x <= 0xf,
            memory@ == stored(before, registers@, index, i as int),
        decreases x + 1 - i,
    {
        let at: usize = (index as usize + i as usize) % 4096;
        assert(offset_from(index, at as int) == i);
        memory[at] = registers[i as usize];
        assert(memory@ =~= stored(before, registers@, index, i + 1)) by {
            assert forall|a: int| 0 <= a < 4096 && offset_from(index, a) == i implies a == at by {}
        }
        i += 1;
    }
    assert(memory@ =~= dumped(before, registers@, index, x));
}

/// Loads `V0` up to `Vx` from `memory` from `index` on, addresses taken
/// modulo 4096.
fn load(registers: &mut [u8; 16], memory: &[u8; 4096], index: u16, x: u8)
    requires
        x <= 0xf,
    ensures
        final(registers)@ == loaded(old(registers)@, memory@, index, x),
    no_unwind
{
    let ghost before = registers@;
    let mut i: u8 = 0;
    assert(registers@ =~= fetched(before, memory@, index, 0));
    while i <= x
        invariant
            i <= x + 1,
            x <= 0xf,
            registers@ == fetched(before, memory@, index, i as int),
        decreases x + 1 - i,
    {
        registers[i as usize] = memory[(index as usize + i as usize) % 4096];
        assert(registers@ =~= fetched(before, memory@, index, i + 1));
        i += 1;
    }
    assert(registers@ =~= loaded(before, memory@, index, x));
}

/// Shifting a byte by one bit halves or doubles it, and the bit that falls
/// out is its remainder by 2 or its quotient by 128.
proof fn lemma_shifts(v: u8)
    by (bit_vector)
    ensures
        v & 1 == v % 2,
        v >> 1 == v / 2,
        v >> 7 == v / 128,
        v < 128 ==> v << 1 == v * 2,
        v >= 128 ==> v << 1 == v * 2 - 256,
{
}

/// The instructions that clear the display or steer the program counter.
spec fn steers(id: OpCodeIdentity) -> bool {
    match id {
        OpCodeIdentity::ClrDisp
        | OpCodeIdentity::RetSub
        | OpCodeIdentity::JumpAddr
        | OpCodeIdentity::CallSub
        | OpCodeIdentity::SkipEqRC
        | OpCodeIdentity::SkipNqRC
        | OpCodeIdentity::SkipEqRR
        | OpCodeIdentity::SkipNqRR
        | OpCodeIdentity::JumpAddrCR => true,
        _ => false,
    }
}

/// The instructions that compute in the registers.
spec fn computes(id: OpCodeIdentity) -> bool {
    match id {
        OpCodeIdentity::SetRC
        | OpCodeIdentity::AddNcRC
        | OpCodeIdentity::SetRR
        | OpCodeIdentity::OrRR
        | OpCodeIdentity::AndRR
        | OpCodeIdentity::XorRR
        | OpCodeIdentity::AddRR
        | OpCodeIdentity::SubRRR
        | OpCodeIdentity::RshiftR
        | OpCodeIdentity::SubLRR
        | OpCodeIdentity::LshiftR => true,
        _ => false,
    }
}

/// The instructions that move data between registers, memory, timers,
/// display and the random generator.
spec fn transfers(id: OpCodeIdentity) -> bool {
    match id {
        OpCodeIdentity::SetAddrRegC
        | OpCodeIdentity::RandRC
        | OpCodeIdentity::DrawDispRRC
        | OpCodeIdentity::GetDelayR
        | OpCodeIdentity::SetDelayR
        | OpCodeIdentity::SetSoundR
        | OpCodeIdentity::AddAddrRegR
        | OpCodeIdentity::SetBcdR
        | OpCodeIdentity::DumpRegsToMemR
        | OpCodeIdentity::LoadRegsFromMemR => true,
        _ => false,
    }
}

/// The machine: its registers, memory, stack, timers, display, random
/// generator and program.
pub struct Chip8 {
    pc: u16,
    registers_8bit: [u8; 16],
    register_12bit: u16,
    memory: [u8; 4096],
    stack: Stack,
    rand_engine: Rand,
    vram: VRAM,
    vram_changed: bool,
    program: Vec<OpCode>,
    timer: u8,
    sound_timer: u8,
}

impl View for Chip8 {
    type V = Machine;

    closed spec fn view(&self) -> Machine {
        Machine {
            pc: self.pc,
            registers: self.registers_8bit@,
            index: self.register_12bit,
            memory: self.memory@,
            stack: self.stack@,
            delay: self.timer,
            sound: self.sound_timer,
            frame: self.vram@,
            frame_changed: self.vram_changed,
            seed: self.rand_engine@,
            program: self.program@,
        }
    }
}

impl Default for Chip8 {
    /// A machine without a program.
    fn default() -> (chip: Self)
        ensures
            chip@ == Machine::initial(Seq::empty(), chip@.seed),
            chip@.wf(),
    {
        let chip = Self {
            pc: 0,
            registers_8bit: [0;16],
            register_12bit: 0,
            memory: [0;4096],
            stack: Default::default(),
            program: Vec::new(),
            rand_engine: Default::default(),
            vram: VRAM::default(),
            vram_changed: false,
            timer: 0,
            sound_timer: 0,
        };
        assert(chip@.registers =~= Seq::new(16, |i: int| 0u8));
        assert(chip@.memory =~= Seq::new(4096, |i: int| 0u8));
        chip
    }
}

impl Chip8 {
    #[verifier::type_invariant]
    spec fn within_limits(self) -> bool {
        self.register_12bit <= 0xfff && self.program@.len() <= MAX_PROGRAM
    }

    /// A machine that is to run `program`: every register, byte and cell
    /// zero, the stack empty, the program counter at the first instruction,
    /// and the random generator seeded from the system clock.
    pub fn new(program: Vec<OpCode>) -> (chip: Self)
        requires
            program@.len() <= MAX_PROGRAM,
        ensures
            chip@ == Machine::initial(program@, chip@.seed),
            chip@.wf(),
    {
        Self { program, ..Default::default() }
    }

    /// As `new`, with the random generator seeded with `seed`.
    pub fn with_seed(program: Vec<OpCode>, seed: u64) -> (chip: Self)
        requires
            program@.len() <= MAX_PROGRAM,
        ensures
            chip@ == Machine::initial(program@, seed),
            chip@.wf(),
    {
        Self { program, rand_engine: Rand::new(seed), ..Default::default() }
    }

    fn inc_pc(&mut self)
        requires
            old(self)@.pc < u16::MAX,
        ensures
            final(self)@ == old(self)@.advance(),
    {
        proof {
            use_type_invariant(&*self);
        }
        self.pc += 1;
    }

    fn get_opcode(&mut self) -> (oc: Option<OpCode>)
        ensures
            oc == old(self)@.fetch(),
            final(self)@ == old(self)@,
    {
        if (self.pc as usize) < self.program.len() {
            Some(self.program[self.pc as usize])
        } else {
            None
        }
    }

    /// The value of register `x`.
    fn register(&self, x: u8) -> (value: u8)
        requires
            x <= 0xf,
        ensures
            value == self@.v(x),
    {
        self.registers_8bit[x as usize]
    }

    /// Puts `value` in register `x`.
    fn set_register(&mut self, x: u8, value: u8)
        requires
            x <= 0xf,
        ensures
            final(self)@ == old(self)@.set_v(x, value),
    {
        proof {
            use_type_invariant(&*self);
        }
        self.registers_8bit[x as usize] = value;
    }

    /// Adds `constant` to register `x`, wrapping at 256.
    fn add_constant(&mut self, x: u8, constant: u8)
        requires
            x <= 0xf,
        ensures
            final(self)@ == old(self)@.add_constant(x, constant),
    {
        self.set_register(x, self.register(x).wrapping_add(constant));
    }

    /// Adds register `y` to register `x`, wrapping at 256, and sets `VF` to
    /// the carry.
    fn add_registers(&mut self, x: u8, y: u8)
        requires
            x <= 0xf,
            y <= 0xf,
        ensures
            final(self)@ == old(self)@.add_registers(x, y),
    {
        let a: u8 = self.register(x);
        let b: u8 = self.register(y);
        let overflow: bool = a as u16 + b as u16 > 255;
        self.set_register(x, a.wrapping_add(b));
        self.set_register(
            0xF,
            if overflow {
                1
            } else {
                0
            },
        );
    }

    /// Subtracts register `y` from register `x`, wrapping at 256, and sets
    /// `VF` to 0 if it had to borrow, else to 1.
    fn subtract(&mut self, x: u8, y: u8)
        requires
            x <= 0xf,
            y <= 0xf,
        ensures
            final(self)@ == old(self)@.subtract(x, y),
    {
        let a: u8 = self.register(x);
        let b: u8 = self.register(y);
        let overflow: bool = a < b;
        self.set_register(x, a.wrapping_sub(b));
        self.set_register(
            0xF,
            if overflow {
                0
            } else {
                1
            },
        );
    }

    /// Sets register `x` to register `y` less register `x`, wrapping at 256,
    /// and sets `VF` to 0 if it had to borrow, else to 1.
    fn subtract_reversed(&mut self, x: u8, y: u8)
        requires
            x <= 0xf,
            y <= 0xf,
        ensures
            final(self)@ == old(self)@.subtract_reversed(x, y),
    {
        let a: u8 = self.register(x);
        let b: u8 = self.register(y);
        let overflow: bool = b < a;
        self.set_register(x, b.wrapping_sub(a));
        self.set_register(
            0xF,
            if overflow {
                0
            } else {
                1
            },
        );
    }

    /// Sets `VF` to the lowest bit of register `x`, then shifts register `x`
    /// right by one.
    fn shift_right(&mut self, x: u8)
        requires
            x <= 0xf,
        ensures
            final(self)@ == old(self)@.shift_right(x),
    {
        let low: u8 = self.register(x) & 0x1;
        proof {
            lemma_shifts(self@.v(x));
            lemma_shifts(low);
        }
        self.set_register(0xF, low);
        self.set_register(x, self.register(x) >> 1);
    }

    /// Sets `VF` to the highest bit of register `x`, then shifts register
    /// `x` left by one.
    fn shift_left(&mut self, x: u8)
        requires
            x <= 0xf,
        ensures
            final(self)@ == old(self)@.shift_left(x),
    {
        let high: u8 = self.register(x) >> 7;
        proof {
            lemma_shifts(self@.v(x));
            lemma_shifts(high);
        }
        self.set_register(0xF, high);
        self.set_register(x, self.register(x) << 1);
    }

    /// Advances the program counter once more if `condition` holds.
    fn skip_if(&mut self, condition: bool)
        requires
            old(self)@.pc < u16::MAX,
        ensures
            final(self)@ == old(self)@.skip_if(condition),
    {
        if condition {
            self.inc_pc();
        }
    }

    /// Stores the decimal digits of `value` at `I`, `I + 1` and `I + 2`,
    /// addresses taken modulo 4096.
    fn store_bcd(&mut self, value: u8)
        ensures
            final(self)@ == old(self)@.store_bcd(value),
    {
        proof {
            use_type_invariant(&*self);
        }
        let at: usize = self.register_12bit as usize;
        self.memory[at % 4096] = value / 100;
        self.memory[(at + 1) % 4096] = (value / 10) % 10;
        self.memory[(at + 2) % 4096] = value % 10;
    }

    /// Draws the sprite of `height` rows at `I` where registers `x` and `y`
    /// say, and sets `VF` to 1 if a lit cell went dark, else to 0.
    fn draw_sprite(&mut self, x: u8, y: u8, height: u8)
        requires
            x <= 0xf,
            y <= 0xf,
            height <= 0xf,
        ensures
            final(self)@ == old(self)@.draw(x, y, height),
    {
        proof {
            use_type_invariant(&*self);
        }
        let vx: u8 = self.registers_8bit[x as usize];
        let vy: u8 = self.registers_8bit[y as usize];
        let collision = self.vram.draw(&self.memory, self.register_12bit, vx, vy, height);
        self.registers_8bit[0xF] = if collision {
            1
        } else {
            0
        };
        self.vram_changed = true;
    }

    /// Draws a number from the random generator and puts its low byte,
    /// masked with `constant`, in register `x`.
    fn random_masked(&mut self, x: u8, constant: u8)
        requires
            x <= 0xf,
        ensures
            final(self)@ == (Machine {
                seed: next_state(old(self)@.seed),
                ..old(self)@
            }).set_v(x, (next_state(old(self)@.seed) % 256) as u8 & constant),
    {
        proof {
            use_type_invariant(&*self);
        }
        let mut engine = self.rand_engine;
        let drawn: u64 = engine.rand();
        self.rand_engine = engine;
        self.registers_8bit[x as usize] = (drawn % 256) as u8 & constant;
    }

    /// The fault that `oc` would run into on this machine, if any.
    fn fault_of(&self, oc: &OpCode) -> (fault: Option<CPUError>)
        ensures
            fault == self@.fault(*oc),
    {
        match oc.oc_id {
            OpCodeIdentity::CallMach
            | OpCodeIdentity::SkipKeyPressedR
            | OpCodeIdentity::SkipNKeyPressedR
            | OpCodeIdentity::AwaitGetKeyDownR
            | OpCodeIdentity::SetAddrRegSpriteR => Some(CPUError::NotImplemented),
            OpCodeIdentity::CallSub => {
                if self.stack.depth() >= 48 {
                    Some(CPUError::StackOverflow)
                } else {
                    None
                }
            },
            OpCodeIdentity::RetSub => {
                if self.stack.depth() == 0 {
                    Some(CPUError::StackUnderflow)
                } else {
                    None
                }
            },
            _ => None,
        }
    }

    /// Applies an instruction that clears the display or steers the program counter.
    fn execute_steering(&mut self, oc: OpCode, data: Data)
        requires
            steers(oc.oc_id),
            data == operands(oc.oc_id, oc.op_code),
            data.in_range(),
            old(self)@.pc < u16::MAX,
            oc.oc_id == OpCodeIdentity::RetSub ==> old(self)@.stack.len() > 0,
            oc.oc_id == OpCodeIdentity::CallSub ==> old(self)@.stack.len() < 48,
        ensures
            final(self)@ == old(self)@.apply(oc),
    {
        proof {
            use_type_invariant(&*self);
        }
        match oc.oc_id {
            OpCodeIdentity::ClrDisp => {
                self.vram.clear();
                self.vram_changed = true;
            },
            OpCodeIdentity::RetSub => {
                if let Some(address) = self.stack.pop() {
                    self.pc = address;
                }
            },
            OpCodeIdentity::JumpAddr => {
                if let Data::NNN(address) = data {
                    self.pc = address;
                }
            },
            OpCodeIdentity::CallSub => {
                if let Data::NNN(address) = data {
                    if let Some(()) = self.stack.push(self.pc) {
                        self.pc = address;
                    }
                }
            },
            OpCodeIdentity::SkipEqRC => {
                if let Data::XNN(x, constant) = data {
                    self.skip_if(self.register(x) == constant);
                }
            },
            OpCodeIdentity::SkipNqRC => {
                if let Data::XNN(x, constant) = data {
                    self.skip_if(self.register(x) != constant);
                }
            },
            OpCodeIdentity::SkipEqRR => {
                if let Data::XY(x, y) = data {
                    self.skip_if(self.register(x) == self.register(y));
                }
            },
            OpCodeIdentity::SkipNqRR => {
                if let Data::XY(x, y) = data {
                    self.skip_if(self.register(x) != self.register(y));
                }
            },
            OpCodeIdentity::JumpAddrCR => {
                if let Data::NNN(address) = data {
                    self.pc = self.register(0) as u16 + address;
                }
            },
            _ => {},
        }
    }

    /// Applies an instruction that computes in the registers.
    fn execute_computing(&mut self, oc: OpCode, data: Data)
        requires
            computes(oc.oc_id),
            data == operands(oc.oc_id, oc.op_code),
            data.in_range(),
        ensures
            final(self)@ == old(self)@.apply(oc),
    {
        proof {
            use_type_invariant(&*self);
        }
        match oc.oc_id {
            OpCodeIdentity::SetRC => {
                if let Data::XNN(x, constant) = data {
                    self.set_register(x, constant);
                }
            },
            OpCodeIdentity::AddNcRC => {
                if let Data::XNN(x, constant) = data {
                    self.add_constant(x, constant);
                }
            },
            OpCodeIdentity::SetRR => {
                if let Data::XY(x, y) = data {
                    self.set_register(x, self.register(y));
                }
            },
            OpCodeIdentity::OrRR => {
                if let Data::XY(x, y) = data {
                    self.set_register(x, self.register(x) | self.register(y));
                }
            },
            OpCodeIdentity::AndRR => {
                if let Data::XY(x, y) = data {
                    self.set_register(x, self.register(x) & self.register(y));
                }
            },
            OpCodeIdentity::XorRR => {
                if let Data::XY(x, y) = data {
                    self.set_register(x, self.register(x) ^ self.register(y));
                }
            },
            OpCodeIdentity::AddRR => {
                if let Data::XY(x, y) = data {
                    self.add_registers(x, y);
                }
            },
            OpCodeIdentity::SubRRR => {
                if let Data::XY(x, y) = data {
                    self.subtract(x, y);
                }
            },
            OpCodeIdentity::RshiftR => {
                if let Data::X(x) = data {
                    self.shift_right(x);
                }
            },
            OpCodeIdentity::SubLRR => {
                if let Data::XY(x, y) = data {
                    self.subtract_reversed(x, y);
                }
            },
            OpCodeIdentity::LshiftR => {
                if let Data::X(x) = data {
                    self.shift_left(x);
                }
            },
            _ => {},
        }
    }

    /// Applies an instruction that moves data between registers, memory,
    /// timers, display and the random generator.
    fn execute_transfer(&mut self, oc: OpCode, data: Data)
        requires
            transfers(oc.oc_id),
            data == operands(oc.oc_id, oc.op_code),
            data.in_range(),
        ensures
            final(self)@ == old(self)@.apply(oc),
    {
        proof {
            use_type_invariant(&*self);
        }
        match oc.oc_id {
            OpCodeIdentity::SetAddrRegC => {
                if let Data::NNN(address) = data {
                    self.register_12bit = address;
                }
            },
            OpCodeIdentity::RandRC => {
                if let Data::XNN(x, constant) = data {
                    self.random_masked(x, constant);
                }
            },
            OpCodeIdentity::DrawDispRRC => {
                if let Data::XYN(x, y, height) = data {
                    self.draw_sprite(x, y, height);
                }
            },
            OpCodeIdentity::GetDelayR => {
                if let Data::X(x) = data {
                    self.set_register(x, self.timer);
                }
            },
            OpCodeIdentity::SetDelayR => {
                if let Data::X(x) = data {
                    self.timer = self.register(x);
                }
            },
            OpCodeIdentity::SetSoundR => {
                if let Data::X(x) = data {
                    self.sound_timer = self.register(x);
                }
            },
            OpCodeIdentity::AddAddrRegR => {
                if let Data::X(x) = data {
                    self.register_12bit = (self.register_12bit + self.register(x) as u16) % 4096;
                }
            },
            OpCodeIdentity::SetBcdR => {
                if let Data::X(x) = data {
                    self.store_bcd(self.register(x));
                }
            },
            OpCodeIdentity::DumpRegsToMemR => {
                if let Data::X(x) = data {
                    dump(&mut self.memory, &self.registers_8bit, self.register_12bit, x);
                }
            },
            OpCodeIdentity::LoadRegsFromMemR => {
                if let Data::X(x) = data {
                    load(&mut self.registers_8bit, &self.memory, self.register_12bit, x);
                }
            },
            _ => {},
        }
    }

    /// Executes `oc`: advances the program counter and applies the
    /// instruction; or returns the fault of `oc` and leaves the machine as
    /// it is.
    fn execute_op(&mut self, oc: OpCode) -> (done: Result<(), CPUError>)
        requires
            old(self)@.pc < MAX_PROGRAM,
        ensures
            match old(self)@.execute(oc) {
                Ok(next) => done is Ok && final(self)@ == next,
                Err(e) => done == Err::<(), CPUError>(e) && final(self)@ == old(self)@,
            },
    {
        proof {
            use_type_invariant(&*self);
        }
        if let Some(fault) = self.fault_of(&oc) {
            return Err(fault);
        }
        let data = oc.get_data();
        self.inc_pc();
        match oc.oc_id {
            OpCodeIdentity::CallMach
            | OpCodeIdentity::SkipKeyPressedR
            | OpCodeIdentity::SkipNKeyPressedR
            | OpCodeIdentity::AwaitGetKeyDownR
            | OpCodeIdentity::SetAddrRegSpriteR => {
                // These are faults: they have returned above.
            },
            OpCodeIdentity::ClrDisp
            | OpCodeIdentity::RetSub
            | OpCodeIdentity::JumpAddr
            | OpCodeIdentity::CallSub
            | OpCodeIdentity::SkipEqRC
            | OpCodeIdentity::SkipNqRC
            | OpCodeIdentity::SkipEqRR
            | OpCodeIdentity::SkipNqRR
            | OpCodeIdentity::JumpAddrCR => {
                self.execute_steering(oc, data);
            },
            OpCodeIdentity::SetRC
            | OpCodeIdentity::AddNcRC
            | OpCodeIdentity::SetRR
            | OpCodeIdentity::OrRR
            | OpCodeIdentity::AndRR
            | OpCodeIdentity::XorRR
            | OpCodeIdentity::AddRR
            | OpCodeIdentity::SubRRR
            | OpCodeIdentity::RshiftR
            | OpCodeIdentity::SubLRR
            | OpCodeIdentity::LshiftR => {
                self.execute_computing(oc, data);
            },
            OpCodeIdentity::SetAddrRegC
            | OpCodeIdentity::RandRC
            | OpCodeIdentity::DrawDispRRC
            | OpCodeIdentity::GetDelayR
            | OpCodeIdentity::SetDelayR
            | OpCodeIdentity::SetSoundR
            | OpCodeIdentity::AddAddrRegR
            | OpCodeIdentity::SetBcdR
            | OpCodeIdentity::DumpRegsToMemR
            | OpCodeIdentity::LoadRegsFromMemR => {
                self.execute_transfer(oc, data);
            },
        }
        Ok(())
    }

    /// The sixteen registers `V0` to `VF`.
    pub fn dump_registers(&self) -> (registers: [u8; 16])
        ensures
            registers@ == self@.registers,
    {
        self.registers_8bit
    }

    /// The index register `I`.
    pub fn dump_large_register(&self) -> (index: u16)
        ensures
            index == self@.index,
            index <= 0xfff,
    {
        proof {
            use_type_invariant(self);
        }
        self.register_12bit
    }

    /// The call stack.
    pub fn dump_stack(&self) -> (stack: Stack)
        ensures
            stack@ == self@.stack,
    {
        self.stack
    }

    /// The delay timer and the sound timer.
    pub fn dump_clock(&self) -> (clock: (u8, u8))
        ensures
            clock == (self@.delay, self@.sound),
    {
        (self.timer, self.sound_timer)
    }

    /// Runs one cycle. A machine that has run off the end of its program
    /// stays halted: `Ok(None)`. A machine whose next instruction faults
    /// returns the fault and stays as it is, so that it can be inspected and
    /// faults again on the next cycle. Else the instruction is executed and
    /// both timers decay: the result holds the frame, if the instruction
    /// drew or cleared, and whether the sound timer is still running.
    pub fn cycle(&mut self) -> (outcome: Result<Option<(Option<&[u8]>, bool)>, CPUError>)
        ensures
            final(self)@ == old(self)@.cycle(),
            final(self)@.wf(),
            outcome is Err <==> old(self)@.cycle_fault() is Some,
            outcome is Err ==> Some(outcome->Err_0) == old(self)@.cycle_fault(),
            outcome == Ok::<Option<(Option<&[u8]>, bool)>, CPUError>(None) <==> old(self)@.halted(),
            match outcome {
                Ok(Some((frame, sound))) => {
                    &&& sound == (final(self)@.sound > 0)
                    &&& frame is Some == final(self)@.frame_changed
                    &&& frame is Some ==> frame->0@ == final(self)@.frame
                },
                _ => true,
            },
    {
        proof {
            use_type_invariant(&*self);
            use_type_invariant(&self.stack);
            use_type_invariant(&self.vram);
        }
        self.vram_changed = false;
        let oc = match self.get_opcode() {
            Some(oc) => oc,
            None => {
                return Ok(None);
            },
        };
        let res = self.execute_op(oc);
        match res {
            Ok(_) => (),
            Err(fault) => {
                return Err(fault);
            },
        }
        self.timer = self.timer.saturating_sub(1);
        self.sound_timer = self.sound_timer.saturating_sub(1);
        proof {
            use_type_invariant(&*self);
            use_type_invariant(&self.stack);
            use_type_invariant(&self.vram);
        }
        if self.vram_changed {
            return Ok(Some((Some(self.vram.cells()), self.sound_timer > 0)));
        }
        Ok(Some((None, self.sound_timer > 0)))
    }
}

} // verus!
