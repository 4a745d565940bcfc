use vstd::prelude::*;

verus! {

/// Bytes of addressable memory.
pub const RAM_SIZE: usize = 4096;

/// Width of the frame buffer in pixels.
pub const SCREEN_WIDTH: usize = 64;

/// Height of the frame buffer in pixels.
pub const SCREEN_HEIGHT: usize = 32;

/// Pixels in the frame buffer.
pub const DISPLAY_SIZE: usize = 2048;

/// General-purpose registers; the last one doubles as the flag register.
pub const REG_COUNT: usize = 16;

/// Slots of the call stack.
pub const STACK_SIZE: usize = 16;

/// Keys of the hexadecimal keypad.
pub const NUM_KEYS: usize = 16;

/// Address at which programs are loaded and execution starts.
pub const START_ADDRESS: u16 = 0x200;

/// Bytes taken by the built-in font (sixteen glyphs of five rows).
pub const FONT_SIZE: usize = 80;

/// Largest program that fits between the start address and the end of memory.
pub const MAX_PROGRAM_SIZE: usize = 3584;

/// The register that receives carry, borrow, shifted-out and collision bits.
pub const FLAG_REG: usize = 15;

/// A fault surfaced to the driver instead of a silent corruption of state.
#[derive(Clone, Copy, Debug, PartialEq, Eq, Structural)]
pub enum Fault {
    /// The program does not fit between the start address and the end of memory.
    LoadOverflow,
    /// A call with all sixteen stack slots in use.
    StackOverflow,
    /// A return with an empty stack.
    StackUnderflow,
    /// The fetched word matches no instruction.
    UnknownOpcode(u16),
}

/// One decoded instruction. `x` and `y` are register numbers (0 to 15), `nn` an
/// immediate byte, `addr` a 12-bit immediate and `n` a sprite height (0 to 15).
#[derive(Clone, Copy, Debug, PartialEq, Eq, Structural)]
pub enum Instruction {
    Nop,
    ClearScreen,
    Return,
    Jump { addr: u16 },
    Call { addr: u16 },
    SkipEqImm { x: u8, nn: u8 },
    SkipNeImm { x: u8, nn: u8 },
    SkipEqReg { x: u8, y: u8 },
    SetImm { x: u8, nn: u8 },
    AddImm { x: u8, nn: u8 },
    SetReg { x: u8, y: u8 },
    Or { x: u8, y: u8 },
    And { x: u8, y: u8 },
    Xor { x: u8, y: u8 },
    AddReg { x: u8, y: u8 },
    SubReg { x: u8, y: u8 },
    ShiftRight { x: u8 },
    SubRev { x: u8, y: u8 },
    ShiftLeft { x: u8 },
    SkipNeReg { x: u8, y: u8 },
    SetIndex { addr: u16 },
    JumpOffset { addr: u16 },
    Random { x: u8, nn: u8 },
    Draw { x: u8, y: u8, n: u8 },
    SkipKey { x: u8 },
    SkipNoKey { x: u8 },
    ReadDelay { x: u8 },
    WaitKey { x: u8 },
    SetDelay { x: u8 },
    SetSound { x: u8 },
    AddIndex { x: u8 },
    FontChar { x: u8 },
    Bcd { x: u8 },
    StoreRegs { x: u8 },
    LoadRegs { x: u8 },
}

/// The whole machine as mathematical values.
pub struct MachineModel {
    pub ram: Seq<u8>,
    pub display: Seq<bool>,
    pub pc: u16,
    pub index: u16,
    pub stack: Seq<u16>,
    pub sp: u16,
    pub delay_timer: u8,
    pub sound_timer: u8,
    pub v: Seq<u8>,
    pub keys: Seq<bool>,
}

/// The glyphs of the hexadecimal digits 0 to F, five rows of eight pixels each.
pub open spec fn font_spec() -> Seq<u8> {
    seq![
        0xF0u8, 0x90, 0x90, 0x90, 0xF0,
        0x20, 0x60, 0x20, 0x20, 0x70,
        0xF0, 0x10, 0xF0, 0x80, 0xF0,
        0xF0, 0x10, 0xF0, 0x10, 0xF0,
        0x90, 0x90, 0xF0, 0x10, 0x10,
        0xF0, 0x80, 0xF0, 0x10, 0xF0,
        0xF0, 0x80, 0xF0, 0x90, 0xF0,
        0xF0, 0x10, 0x20, 0x40, 0x40,
        0xF0, 0x90, 0xF0, 0x90, 0xF0,
        0xF0, 0x90, 0xF0, 0x10, 0xF0,
        0xF0, 0x90, 0xF0, 0x90, 0x90,
        0xE0, 0x90, 0xE0, 0x90, 0xE0,
        0xF0, 0x80, 0x80, 0x80, 0xF0,
        0xE0, 0x90, 0x90, 0x90, 0xE0,
        0xF0, 0x80, 0xF0, 0x80, 0xF0,
        0xF0, 0x80, 0xF0, 0x80, 0x80,
    ]
}

impl MachineModel {
    /// Sizes of the fixed storage, and a stack pointer within the stack.
    pub open spec fn wf(self) -> bool {
        &&& self.ram.len() == RAM_SIZE
        &&& self.display.len() == DISPLAY_SIZE
        &&& self.stack.len() == STACK_SIZE
        &&& self.sp <= STACK_SIZE
        &&& self.v.len() == REG_COUNT
        &&& self.keys.len() == NUM_KEYS
    }

    /// The state after construction or reset: font at address 0, all else zero,
    /// program counter at the start address.
    pub open spec fn initial() -> MachineModel {
        MachineModel {
            ram: Seq::new(RAM_SIZE as nat, |a: int| if a < FONT_SIZE { font_spec()[a] } else { 0u8 }),
            display: Seq::new(DISPLAY_SIZE as nat, |p: int| false),
            pc: START_ADDRESS,
            index: 0,
            stack: Seq::new(STACK_SIZE as nat, |k: int| 0u16),
            sp: 0,
            delay_timer: 0,
            sound_timer: 0,
            v: Seq::new(REG_COUNT as nat, |k: int| 0u8),
            keys: Seq::new(NUM_KEYS as nat, |k: int| false),
        }
    }

    /// Memory with `bytes` written from the start address on.
    pub open spec fn loaded(self, bytes: Seq<u8>) -> MachineModel {
        MachineModel {
            ram: Seq::new(
                self.ram.len(),
                |a: int|
                    if START_ADDRESS <= a < START_ADDRESS + bytes.len() {
                        bytes[a - START_ADDRESS]
                    } else {
                        self.ram[a]
                    },
            ),
            ..self
        }
    }

    /// Both timers moved one step towards zero.
    pub open spec fn timers_ticked(self) -> MachineModel {
        MachineModel {
            delay_timer: if self.delay_timer > 0 { (self.delay_timer - 1) as u8 } else { 0 },
            sound_timer: if self.sound_timer > 0 { (self.sound_timer - 1) as u8 } else { 0 },
            ..self
        }
    }

    /// The instruction word stored at the program counter, big-endian, with
    /// both addresses taken modulo the size of memory.
    pub open spec fn fetched(self) -> u16 {
        (self.ram[self.pc as int % 4096] as int * 256 + self.ram[(self.pc + 1) % 4096] as int) as u16
    }

    pub open spec fn with_reg(self, x: int, val: u8) -> MachineModel {
        MachineModel { v: self.v.update(x, val), ..self }
    }

    /// `Vx := val`, then the flag register := `flag`.
    pub open spec fn with_reg_flag(self, x: int, val: u8, flag: u8) -> MachineModel {
        self.with_reg(x, val).with_reg(FLAG_REG as int, flag)
    }

    pub open spec fn with_pc(self, pc: int) -> MachineModel {
        MachineModel { pc: pc as u16, ..self }
    }

    /// The program counter moved past the next instruction when `cond` holds.
    pub open spec fn skip_if(self, cond: bool) -> MachineModel {
        if cond { self.with_pc((self.pc + 2) % 0x10000) } else { self }
    }

    pub open spec fn reg(self, x: u8) -> u8 {
        self.v[x as int]
    }

    /// Whether key `k` is pressed; there is no key above 0xF.
    pub open spec fn key_down(self, k: u8) -> bool {
        k < NUM_KEYS && self.keys[k as int]
    }

    /// Memory address `index + k`, taken modulo the size of memory.
    pub open spec fn addr_at(self, k: int) -> int {
        (self.index + k) % 4096
    }

    /// The least index of a pressed key, if any key is pressed.
    pub open spec fn lowest_key(self) -> Option<u8> {
        lowest_key_from(self.keys, 0)
    }
}

/// The least `k` from `from` on with `keys[k]` set, if there is one below 16.
pub open spec fn lowest_key_from(keys: Seq<bool>, from: int) -> Option<u8>
    decreases NUM_KEYS - from,
{
    if from < 0 || from >= NUM_KEYS {
        None
    } else if keys[from] {
        Some(from as u8)
    } else {
        lowest_key_from(keys, from + 1)
    }
}

/// Bit `c` (0 is the leftmost pixel) of sprite row `b`.
pub open spec fn sprite_bit(b: u8, c: int) -> bool {
    b & (0x80u8 >> (c as u8)) != 0
}

/// Whether a sprite of `n` rows, read at the index register and drawn at
/// `(x0, y0)` with per-pixel wraparound, covers pixel `p` with a set bit among
/// the rows before `rk` and, on row `rk`, the columns before `ck`.
pub open spec fn hit_before(s: MachineModel, x0: int, y0: int, n: int, p: int, rk: int, ck: int) -> bool {
    let c = (p % 64 - x0 + 64) % 64;
    let r = (p / 64 - y0 + 32) % 32;
    &&& c < 8
    &&& r < n
    &&& (r < rk || (r == rk && c < ck))
    &&& sprite_bit(s.ram[s.addr_at(r)], c)
}

/// Whether the sprite covers pixel `p` with a set bit.
pub open spec fn sprite_hit(s: MachineModel, x0: int, y0: int, n: int, p: int) -> bool {
    hit_before(s, x0, y0, n, p, n, 0)
}

/// The frame buffer with every pixel the sprite covers flipped.
pub open spec fn drawn_display(s: MachineModel, x0: int, y0: int, n: int) -> Seq<bool> {
    Seq::new(DISPLAY_SIZE as nat, |p: int| s.display[p] != sprite_hit(s, x0, y0, n, p))
}

/// Whether the sprite covers a pixel that was set before the draw.
pub open spec fn draw_collides(s: MachineModel, x0: int, y0: int, n: int) -> bool {
    exists|p: int| 0 <= p < DISPLAY_SIZE && #[trigger] sprite_hit(s, x0, y0, n, p) && s.display[p]
}

/// Memory after the decimal digits of `val` are written at the index register.
pub open spec fn bcd_ram(s: MachineModel, val: u8) -> Seq<u8> {
    s.ram.update(s.addr_at(0), val / 100).update(s.addr_at(1), (val / 10) % 10).update(
        s.addr_at(2),
        val % 10,
    )
}

/// Memory after registers `V0..=Vx` are stored from the index register on:
/// address `a` lies `(a - index) mod 4096` bytes past the index register.
pub open spec fn stored_ram(s: MachineModel, x: int) -> Seq<u8> {
    Seq::new(
        s.ram.len(),
        |a: int|
            if (a - s.index) % 4096 <= x {
                s.v[(a - s.index) % 4096]
            } else {
                s.ram[a]
            },
    )
}

/// The machine after a call of a function with result `r` left it as `after`,
/// where `before` was the state before and `expected` what the call owes: on
/// success the new state, on a fault the fault, with the state left as it was.
pub open spec fn outcome_is(
    before: MachineModel,
    r: Result<(), Fault>,
    after: MachineModel,
    expected: Result<MachineModel, Fault>,
) -> bool {
    match expected {
        Ok(s) => r == Ok::<(), Fault>(()) && after == s,
        Err(e) => r == Err::<(), Fault>(e) && after == before,
    }
}

/// Registers after `V0..=Vx` are loaded from the index register on.
pub open spec fn loaded_regs(s: MachineModel, x: int) -> Seq<u8> {
    Seq::new(s.v.len(), |k: int| if k <= x { s.ram[s.addr_at(k)] } else { s.v[k] })
}

/// The instruction that a word encodes, or `None` where it matches no pattern.
pub open spec fn decode_spec(op: u16) -> Option<Instruction> {
    let n1 = op / 4096;
    let x = ((op / 256) % 16) as u8;
    let y = ((op / 16) % 16) as u8;
    let n4 = op % 16;
    let nn = (op % 256) as u8;
    let addr = op % 4096;
    let low = op % 256;
    if op == 0 {
        Some(Instruction::Nop)
    } else if op == 0x00E0 {
        Some(Instruction::ClearScreen)
    } else if op == 0x00EE {
        Some(Instruction::Return)
    } else if n1 == 1 {
        Some(Instruction::Jump { addr })
    } else if n1 == 2 {
        Some(Instruction::Call { addr })
    } else if n1 == 3 {
        Some(Instruction::SkipEqImm { x, nn })
    } else if n1 == 4 {
        Some(Instruction::SkipNeImm { x, nn })
    } else if n1 == 5 && n4 == 0 {
        Some(Instruction::SkipEqReg { x, y })
    } else if n1 == 6 {
        Some(Instruction::SetImm { x, nn })
    } else if n1 == 7 {
        Some(Instruction::AddImm { x, nn })
    } else if n1 == 8 && n4 == 0 {
        Some(Instruction::SetReg { x, y })
    } else if n1 == 8 && n4 == 1 {
        Some(Instruction::Or { x, y })
    } else if n1 == 8 && n4 == 2 {
        Some(Instruction::And { x, y })
    } else if n1 == 8 && n4 == 3 {
        Some(Instruction::Xor { x, y })
    } else if n1 == 8 && n4 == 4 {
        Some(Instruction::AddReg { x, y })
    } else if n1 == 8 && n4 == 5 {
        Some(Instruction::SubReg { x, y })
    } else if n1 == 8 && n4 == 6 {
        Some(Instruction::ShiftRight { x })
    } else if n1 == 8 && n4 == 7 {
        Some(Instruction::SubRev { x, y })
    } else if n1 == 8 && n4 == 0xE {
        Some(Instruction::ShiftLeft { x })
    } else if n1 == 9 && n4 == 0 {
        Some(Instruction::SkipNeReg { x, y })
    } else if n1 == 0xA {
        Some(Instruction::SetIndex { addr })
    } else if n1 == 0xB {
        Some(Instruction::JumpOffset { addr })
    } else if n1 == 0xC {
        Some(Instruction::Random { x, nn })
    } else if n1 == 0xD {
        Some(Instruction::Draw { x, y, n: n4 as u8 })
    } else if n1 == 0xE && low == 0x9E {
        Some(Instruction::SkipKey { x })
    } else if n1 == 0xE && low == 0xA1 {
        Some(Instruction::SkipNoKey { x })
    } else if n1 == 0xF && low == 0x07 {
        Some(Instruction::ReadDelay { x })
    } else if n1 == 0xF && low == 0x0A {
        Some(Instruction::WaitKey { x })
    } else if n1 == 0xF && low == 0x15 {
        Some(Instruction::SetDelay { x })
    } else if n1 == 0xF && low == 0x18 {
        Some(Instruction::SetSound { x })
    } else if n1 == 0xF && low == 0x1E {
        Some(Instruction::AddIndex { x })
    } else if n1 == 0xF && low == 0x29 {
        Some(Instruction::FontChar { x })
    } else if n1 == 0xF && low == 0x33 {
        Some(Instruction::Bcd { x })
    } else if n1 == 0xF && low == 0x55 {
        Some(Instruction::StoreRegs { x })
    } else if n1 == 0xF && low == 0x65 {
        Some(Instruction::LoadRegs { x })
    } else {
        None
    }
}

/// The fields of an instruction lie in their ranges: registers and sprite
/// heights below 16, addresses below 0x1000. Every decoded instruction has them.
pub open spec fn operands_in_range(ins: Instruction) -> bool {
    match ins {
        Instruction::Jump { addr } | Instruction::Call { addr } | Instruction::SetIndex { addr }
        | Instruction::JumpOffset { addr } => addr < 0x1000,
        Instruction::SkipEqImm { x, nn } | Instruction::SkipNeImm { x, nn }
        | Instruction::SetImm { x, nn } | Instruction::AddImm { x, nn }
        | Instruction::Random { x, nn } => x < 16,
        Instruction::SkipEqReg { x, y } | Instruction::SetReg { x, y } | Instruction::Or { x, y }
        | Instruction::And { x, y } | Instruction::Xor { x, y } | Instruction::AddReg { x, y }
        | Instruction::SubReg { x, y } | Instruction::SubRev { x, y }
        | Instruction::SkipNeReg { x, y } => x < 16 && y < 16,
        Instruction::Draw { x, y, n } => x < 16 && y < 16 && n < 16,
        Instruction::ShiftRight { x } | Instruction::ShiftLeft { x } | Instruction::SkipKey { x }
        | Instruction::SkipNoKey { x } | Instruction::ReadDelay { x } | Instruction::WaitKey { x }
        | Instruction::SetDelay { x } | Instruction::SetSound { x } | Instruction::AddIndex { x }
        | Instruction::FontChar { x } | Instruction::Bcd { x } | Instruction::StoreRegs { x }
        | Instruction::LoadRegs { x } => x < 16,
        _ => true,
    }
}

/// The effect of `ins`, fetched at `s.pc`, given the random byte `rnd` that
/// `Random` draws. The program counter first moves past the instruction (wrapping
/// at 16 bits). A fault leaves the state as it was.
pub open spec fn exec_spec(s: MachineModel, ins: Instruction, rnd: u8) -> Result<MachineModel, Fault> {
    let t = s.with_pc((s.pc + 2) % 0x10000);
    match ins {
        Instruction::Nop => Ok(t),
        Instruction::ClearScreen => Ok(MachineModel { display: Seq::new(DISPLAY_SIZE as nat, |p: int| false), ..t }),
        Instruction::Return => if s.sp == 0 {
            Err(Fault::StackUnderflow)
        } else {
            Ok(MachineModel { sp: (s.sp - 1) as u16, pc: s.stack[s.sp - 1 as int], ..t })
        },
        Instruction::Jump { addr } => Ok(t.with_pc(addr as int)),
        Instruction::Call { addr } => if s.sp >= STACK_SIZE {
            Err(Fault::StackOverflow)
        } else {
            Ok(MachineModel { stack: s.stack.update(s.sp as int, t.pc), sp: (s.sp + 1) as u16, pc: addr, ..t })
        },
        Instruction::SkipEqImm { x, nn } => Ok(t.skip_if(s.reg(x) == nn)),
        Instruction::SkipNeImm { x, nn } => Ok(t.skip_if(s.reg(x) != nn)),
        Instruction::SkipEqReg { x, y } => Ok(t.skip_if(s.reg(x) == s.reg(y))),
        Instruction::SetImm { x, nn } => Ok(t.with_reg(x as int, nn)),
        Instruction::AddImm { x, nn } => Ok(t.with_reg(x as int, ((s.reg(x) + nn) % 256) as u8)),
        Instruction::SetReg { x, y } => Ok(t.with_reg(x as int, s.reg(y))),
        Instruction::Or { x, y } => Ok(t.with_reg(x as int, s.reg(x) | s.reg(y))),
        Instruction::And { x, y } => Ok(t.with_reg(x as int, s.reg(x) & s.reg(y))),
        Instruction::Xor { x, y } => Ok(t.with_reg(x as int, s.reg(x) ^ s.reg(y))),
        Instruction::AddReg { x, y } => {
            let sum = s.reg(x) + s.reg(y);
            Ok(t.with_reg_flag(x as int, (sum % 256) as u8, if sum > 255 { 1 } else { 0 }))
        },
        Instruction::SubReg { x, y } => {
            let d = s.reg(x) - s.reg(y);
            Ok(t.with_reg_flag(x as int, ((d + 256) % 256) as u8, if d < 0 { 0 } else { 1 }))
        },
        Instruction::ShiftRight { x } => Ok(t.with_reg_flag(x as int, s.reg(x) / 2, s.reg(x) % 2)),
        Instruction::SubRev { x, y } => {
            let d = s.reg(y) - s.reg(x);
            Ok(t.with_reg_flag(y as int, ((d + 256) % 256) as u8, if d < 0 { 0 } else { 1 }))
        },
        Instruction::ShiftLeft { x } => Ok(
            t.with_reg_flag(x as int, ((s.reg(x) * 2) % 256) as u8, s.reg(x) / 128),
        ),
        Instruction::SkipNeReg { x, y } => Ok(t.skip_if(s.reg(x) != s.reg(y))),
        Instruction::SetIndex { addr } => Ok(MachineModel { index: addr, ..t }),
        Instruction::JumpOffset { addr } => Ok(t.with_pc(s.reg(0) + addr)),
        Instruction::Random { x, nn } => Ok(t.with_reg(x as int, rnd & nn)),
        Instruction::Draw { x, y, n } => {
            let x0 = s.reg(x) as int % 64;
            let y0 = s.reg(y) as int % 32;
            let u = MachineModel { display: drawn_display(t, x0, y0, n as int), ..t };
            Ok(u.with_reg(FLAG_REG as int, if draw_collides(t, x0, y0, n as int) { 1 } else { 0 }))
        },
        Instruction::SkipKey { x } => Ok(t.skip_if(s.key_down(s.reg(x)))),
        Instruction::SkipNoKey { x } => Ok(t.skip_if(!s.key_down(s.reg(x)))),
        Instruction::ReadDelay { x } => Ok(t.with_reg(x as int, s.delay_timer)),
        Instruction::WaitKey { x } => match s.lowest_key() {
            Some(k) => Ok(t.with_reg(x as int, k)),
            None => Ok(s),
        },
        Instruction::SetDelay { x } => Ok(MachineModel { delay_timer: s.reg(x), ..t }),
        Instruction::SetSound { x } => Ok(MachineModel { sound_timer: s.reg(x), ..t }),
        Instruction::AddIndex { x } => Ok(MachineModel { index: ((s.index + s.reg(x)) % 0x10000) as u16, ..t }),
        Instruction::FontChar { x } => Ok(MachineModel { index: (s.reg(x) * 5) as u16, ..t }),
        Instruction::Bcd { x } => Ok(MachineModel { ram: bcd_ram(t, s.reg(x)), ..t }),
        Instruction::StoreRegs { x } => Ok(MachineModel { ram: stored_ram(t, x as int), ..t }),
        Instruction::LoadRegs { x } => Ok(MachineModel { v: loaded_regs(t, x as int), ..t }),
    }
}

/// One fetch-decode-execute cycle of the machine in state `s`.
pub open spec fn step_spec(s: MachineModel, rnd: u8) -> Result<MachineModel, Fault> {
    match decode_spec(s.fetched()) {
        Some(ins) => exec_spec(s, ins, rnd),
        None => Err(Fault::UnknownOpcode(s.fetched())),
    }
}

/// The outcomes of successive steps, one per random byte in `rnds`, ending
/// after the first fault.
pub open spec fn trace(s: MachineModel, rnds: Seq<u8>) -> Seq<Result<MachineModel, Fault>>
    decreases rnds.len(),
{
    if rnds.len() == 0 {
        Seq::empty()
    } else {
        match step_spec(s, rnds[0]) {
            Ok(t) => seq![Ok::<MachineModel, Fault>(t)] + trace(t, rnds.drop_first()),
            Err(e) => seq![Err::<MachineModel, Fault>(e)],
        }
    }
}

} // verus!
