use vstd::prelude::*;

use crate::model::{
    step_spec, bcd_ram, decode_spec, draw_collides, drawn_display, exec_spec, font_spec, hit_before,
    loaded_regs, lowest_key_from, operands_in_range, outcome_is, sprite_hit, stored_ram, Fault,
    Instruction, MachineModel, DISPLAY_SIZE, FLAG_REG, FONT_SIZE, MAX_PROGRAM_SIZE, NUM_KEYS,
    RAM_SIZE, REG_COUNT, START_ADDRESS, STACK_SIZE,
};

verus! {

/// The virtual machine: memory, registers, call stack, timers, frame buffer
/// and keypad.
pub struct Chip8 {
    ram: Vec<u8>,
    display: Vec<bool>,
    pc: u16,
    i: u16,
    stack: Vec<u16>,
    sp: u16,
    delay_timer: u8,
    sound_timer: u8,
    v_reg: Vec<u8>,
    keys: Vec<bool>,
}

impl View for Chip8 {
    type V = MachineModel;

    closed spec fn view(&self) -> MachineModel {
        MachineModel {
            ram: self.ram@,
            display: self.display@,
            pc: self.pc,
            index: self.i,
            stack: self.stack@,
            sp: self.sp,
            delay_timer: self.delay_timer,
            sound_timer: self.sound_timer,
            v: self.v_reg@,
            keys: self.keys@,
        }
    }
}

/// The built-in font as bytes.
fn font() -> (r: Vec<u8>)
    ensures
        r@ == font_spec(),
{
    let r = vec![
        0xF0u8, 0x90, 0x90, 0x90, 0xF0,
        0x20, 0x60, 0x20, 0x20, 0x70,
        0xF0, 0x10, 0xF0, 0x80, 0xF0,
        0xF0, 0x10, 0xF0, 0x10, 0xF0,
        0x90, 0x90, 0xF0, 0x10, 0x10,
        0xF0, 0x80, 0xF0, 0x10, 0xF0,
        0xF0, 0x80, 0xF0, 0x90, 0xF0,
        0xF0, 0x10, 0x20, 0x40, 0x40,
        0xF0, 0x90, 0xF0, 0x90, 0xF0,
        0xF0, 0x90, 0xF0, 0x10, 0xF0,
        0xF0, 0x90, 0xF0, 0x90, 0x90,
        0xE0, 0x90, 0xE0, 0x90, 0xE0,
        0xF0, 0x80, 0x80, 0x80, 0xF0,
        0xE0, 0x90, 0x90, 0x90, 0xE0,
        0xF0, 0x80, 0xF0, 0x80, 0xF0,
        0xF0, 0x80, 0xF0, 0x80, 0x80,
    ];
    proof {
        assert(r@ =~= font_spec());
    }
    r
}

/// Memory holding the font at address 0 and zero everywhere else.
fn initial_ram() -> (r: Vec<u8>)
    ensures
        r@ == MachineModel::initial().ram,
{
    let f = font();
    let mut ram = vec![0u8; RAM_SIZE];
    let mut k: usize = 0;
    while k < FONT_SIZE
        invariant
            k <= FONT_SIZE,
            f@ == font_spec(),
            ram@.len() == RAM_SIZE,
            forall|a: int| 0 <= a < k ==> ram@[a] == font_spec()[a],
            forall|a: int| k <= a < RAM_SIZE ==> ram@[a] == 0,
        decreases FONT_SIZE - k,
    {
        ram[k] = f[k];
        k = k + 1;
    }
    proof {
        assert(ram@ =~= MachineModel::initial().ram);
    }
    ram
}

/// The instruction that `op` encodes, or `None` where it matches no pattern.
pub fn decode(op: u16) -> (r: Option<Instruction>)
    ensures
        r == decode_spec(op),
        r matches Some(ins) ==> operands_in_range(ins),
{
    let n1 = op / 4096;
    let x = ((op / 256) % 16) as u8;
    let y = ((op / 16) % 16) as u8;
    let n4 = op % 16;
    let nn = (op % 256) as u8;
    let addr = op % 4096;
    let low = op % 256;
    if op == 0 {
        Some(Instruction::Nop)
    } else if op == 0x00E0 {
        Some(Instruction::ClearScreen)
    } else if op == 0x00EE {
        Some(Instruction::Return)
    } else if n1 == 1 {
        Some(Instruction::Jump { addr })
    } else if n1 == 2 {
        Some(Instruction::Call { addr })
    } else if n1 == 3 {
        Some(Instruction::SkipEqImm { x, nn })
    } else if n1 == 4 {
        Some(Instruction::SkipNeImm { x, nn })
    } else if n1 == 5 && n4 == 0 {
        Some(Instruction::SkipEqReg { x, y })
    } else if n1 == 6 {
        Some(Instruction::SetImm { x, nn })
    } else if n1 == 7 {
        Some(Instruction::AddImm { x, nn })
    } else if n1 == 8 && n4 == 0 {
        Some(Instruction::SetReg { x, y })
    } else if n1 == 8 && n4 == 1 {
        Some(Instruction::Or { x, y })
    } else if n1 == 8 && n4 == 2 {
        Some(Instruction::And { x, y })
    } else if n1 == 8 && n4 == 3 {
        Some(Instruction::Xor { x, y })
    } else if n1 == 8 && n4 == 4 {
        Some(Instruction::AddReg { x, y })
    } else if n1 == 8 && n4 == 5 {
        Some(Instruction::SubReg { x, y })
    } else if n1 == 8 && n4 == 6 {
        Some(Instruction::ShiftRight { x })
    } else if n1 == 8 && n4 == 7 {
        Some(Instruction::SubRev { x, y })
    } else if n1 == 8 && n4 == 0xE {
        Some(Instruction::ShiftLeft { x })
    } else if n1 == 9 && n4 == 0 {
        Some(Instruction::SkipNeReg { x, y })
    } else if n1 == 0xA {
        Some(Instruction::SetIndex { addr })
    } else if n1 == 0xB {
        Some(Instruction::JumpOffset { addr })
    } else if n1 == 0xC {
        Some(Instruction::Random { x, nn })
    } else if n1 == 0xD {
        Some(Instruction::Draw { x, y, n: n4 as u8 })
    } else if n1 == 0xE && low == 0x9E {
        Some(Instruction::SkipKey { x })
    } else if n1 == 0xE && low == 0xA1 {
        Some(Instruction::SkipNoKey { x })
    } else if n1 == 0xF && low == 0x07 {
        Some(Instruction::ReadDelay { x })
    } else if n1 == 0xF && low == 0x0A {
        Some(Instruction::WaitKey { x })
    } else if n1 == 0xF && low == 0x15 {
        Some(Instruction::SetDelay { x })
    } else if n1 == 0xF && low == 0x18 {
        Some(Instruction::SetSound { x })
    } else if n1 == 0xF && low == 0x1E {
        Some(Instruction::AddIndex { x })
    } else if n1 == 0xF && low == 0x29 {
        Some(Instruction::FontChar { x })
    } else if n1 == 0xF && low == 0x33 {
        Some(Instruction::Bcd { x })
    } else if n1 == 0xF && low == 0x55 {
        Some(Instruction::StoreRegs { x })
    } else if n1 == 0xF && low == 0x65 {
        Some(Instruction::LoadRegs { x })
    } else {
        None
    }
}

impl Chip8 {
    /// A machine with the font loaded, everything else zero and the program
    /// counter at the start address.
    pub fn new() -> (r: Chip8)
        ensures
            r@ == MachineModel::initial(),
    {
        let r = Chip8 {
            ram: initial_ram(),
            display: vec![false; DISPLAY_SIZE],
            pc: START_ADDRESS,
            i: 0,
            stack: vec![0u16; STACK_SIZE],
            sp: 0,
            delay_timer: 0,
            sound_timer: 0,
            v_reg: vec![0u8; REG_COUNT],
            keys: vec![false; NUM_KEYS],
        };
        proof {
            assert(r@.display =~= MachineModel::initial().display);
            assert(r@.stack =~= MachineModel::initial().stack);
            assert(r@.v =~= MachineModel::initial().v);
            assert(r@.keys =~= MachineModel::initial().keys);
        }
        r
    }

    /// Puts the whole machine back into the state that `new` builds.
    pub fn reset(&mut self)
        ensures
            final(self)@ == MachineModel::initial(),
    {
        *self = Chip8::new();
    }

    /// The instruction word at the program counter; memory is addressed
    /// modulo its size.
    fn fetch(&self) -> (r: u16)
        requires
            self@.wf(),
        ensures
            r == self@.fetched(),
    {
        let hi = self.ram[(self.pc % 4096) as usize] as u16;
        let lo = self.ram[((self.pc as usize) + 1) % 4096] as u16;
        hi * 256 + lo
    }
}

/// A sprite pixel at row `r` and column `c` from origin `(x0, y0)` lands on
/// exactly one frame-buffer index, and a pixel index determines its row and column.
proof fn lemma_pixel_index(x0: int, y0: int, r: int, c: int, p: int)
    requires
        0 <= x0 < 64,
        0 <= y0 < 32,
        0 <= r < 32,
        0 <= c < 64,
        0 <= p < 2048,
    ensures
        0 <= (x0 + c) % 64 + 64 * ((y0 + r) % 32) < 2048,
        (p == (x0 + c) % 64 + 64 * ((y0 + r) % 32)) <==> ((p % 64 - x0 + 64) % 64 == c && (p / 64
            - y0 + 32) % 32 == r),
{
    let a = p % 64;
    let b = p / 64;
    assert(p == a + 64 * b);
    assert(0 <= b < 32);
    let ca = (x0 + c) % 64;
    let rb = (y0 + r) % 32;
    assert((a - x0 + 64) % 64 == c <==> a == ca) by {
        if a >= x0 {
            assert((a - x0 + 64) % 64 == a - x0);
        } else {
            assert((a - x0 + 64) % 64 == a - x0 + 64);
        }
        if x0 + c >= 64 {
            assert(ca == x0 + c - 64);
        } else {
            assert(ca == x0 + c);
        }
    }
    assert((b - y0 + 32) % 32 == r <==> b == rb) by {
        if b >= y0 {
            assert((b - y0 + 32) % 32 == b - y0);
        } else {
            assert((b - y0 + 32) % 32 == b - y0 + 32);
        }
        if y0 + r >= 32 {
            assert(rb == y0 + r - 32);
        } else {
            assert(rb == y0 + r);
        }
    }
    assert(p == ca + 64 * rb <==> (a == ca && b == rb)) by {
        if p == ca + 64 * rb {
            assert(0 <= ca < 64);
            assert(b == rb) by (nonlinear_arith)
                requires
                    p == a + 64 * b,
                    p == ca + 64 * rb,
                    0 <= a < 64,
                    0 <= ca < 64,
            ;
        }
    }
}

/// The address `k` bytes past `i`, modulo the size of memory, is the one
/// address `a` that lies `k` bytes past `i`.
proof fn lemma_offset(i: int, k: int, a: int)
    requires
        0 <= i,
        0 <= k < 4096,
        0 <= a < 4096,
    ensures
        (a == (i + k) % 4096) <==> ((a - i) % 4096 == k),
{
    let q = (i + k) / 4096;
    assert(i + k == q * 4096 + (i + k) % 4096);
    if a == (i + k) % 4096 {
        assert(a - i == k - q * 4096);
        assert((k - q * 4096) % 4096 == k) by {
            vstd::arithmetic::div_mod::lemma_mod_multiples_vanish(-q, k, 4096);
        }
    }
    if (a - i) % 4096 == k {
        let d = (a - i) / 4096;
        assert(a - i == d * 4096 + k);
        assert(a == k + i + d * 4096);
        assert((i + k + d * 4096) % 4096 == (i + k) % 4096) by {
            vstd::arithmetic::div_mod::lemma_mod_multiples_vanish(d, i + k, 4096);
        }
    }
}

impl Chip8 {
    fn set_reg(&mut self, x: usize, val: u8)
        requires
            old(self)@.wf(),
            x < REG_COUNT,
        ensures
            final(self)@ == old(self)@.with_reg(x as int, val),
    {
        self.v_reg[x] = val;
    }

    /// `Vx := val`, then the flag register := `flag`.
    fn set_reg_flag(&mut self, x: usize, val: u8, flag: u8)
        requires
            old(self)@.wf(),
            x < REG_COUNT,
        ensures
            final(self)@ == old(self)@.with_reg_flag(x as int, val, flag),
    {
        self.v_reg[x] = val;
        self.v_reg[FLAG_REG] = flag;
    }

    fn skip_if(&mut self, cond: bool)
        ensures
            final(self)@ == old(self)@.skip_if(cond),
    {
        if cond {
            self.pc = ((self.pc as u32 + 2) % 0x10000) as u16;
        }
    }

    /// Whether key `k` is pressed; keys above 0xF do not exist.
    fn key_down(&self, k: u8) -> (r: bool)
        requires
            self@.wf(),
        ensures
            r == self@.key_down(k),
    {
        (k as usize) < NUM_KEYS && self.keys[k as usize]
    }

    /// The least index of a pressed key, if any.
    fn lowest_key(&self) -> (r: Option<u8>)
        requires
            self@.wf(),
        ensures
            r == self@.lowest_key(),
    {
        let mut k: usize = 0;
        while k < NUM_KEYS
            invariant
                k <= NUM_KEYS,
                self@.wf(),
                lowest_key_from(self@.keys, 0) == lowest_key_from(self@.keys, k as int),
            decreases NUM_KEYS - k,
        {
            if self.keys[k] {
                return Some(k as u8);
            }
            k = k + 1;
        }
        None
    }

    /// XORs an `n`-row sprite read at the index register onto the frame buffer
    /// at `(x0, y0)`, wrapping each pixel; returns whether a set pixel was hit.
    fn draw(&mut self, x0: u16, y0: u16, n: u8) -> (collided: bool)
        requires
            old(self)@.wf(),
            x0 < 64,
            y0 < 32,
            n < 16,
        ensures
            final(self)@ == (MachineModel {
                display: drawn_display(old(self)@, x0 as int, y0 as int, n as int),
                ..old(self)@
            }),
            collided == draw_collides(old(self)@, x0 as int, y0 as int, n as int),
    {
        let ghost s = self@;
        let ghost (gx, gy, gn) = (x0 as int, y0 as int, n as int);
        let mut flipped = false;
        let mut r: u8 = 0;
        while r < n
            invariant
                r <= n,
                s == old(self)@,
                s.wf(),
                self@ == (MachineModel { display: self@.display, ..s }),
                self@.display.len() == DISPLAY_SIZE,
                forall|p: int|
                    0 <= p < DISPLAY_SIZE ==> #[trigger] self@.display[p] == (s.display[p]
                        != hit_before(s, gx, gy, gn, p, r as int, 0)),
                flipped == exists|p: int|
                    0 <= p < DISPLAY_SIZE && #[trigger] hit_before(s, gx, gy, gn, p, r as int, 0)
                        && s.display[p],
                x0 < 64,
                y0 < 32,
                n < 16,
                gx == x0,
                gy == y0,
                gn == n,
            decreases n - r,
        {
            let pixels = self.ram[((self.i as usize) + (r as usize)) % 4096];
            let mut c: u8 = 0;
            while c < 8
                invariant
                    c <= 8,
                    r < n,
                    s == old(self)@,
                    s.wf(),
                    pixels == s.ram[s.addr_at(r as int)],
                    self@ == (MachineModel { display: self@.display, ..s }),
                    self@.display.len() == DISPLAY_SIZE,
                    forall|p: int|
                        0 <= p < DISPLAY_SIZE ==> #[trigger] self@.display[p] == (s.display[p]
                            != hit_before(s, gx, gy, gn, p, r as int, c as int)),
                    flipped == exists|p: int|
                        0 <= p < DISPLAY_SIZE && #[trigger] hit_before(
                            s,
                            gx,
                            gy,
                            gn,
                            p,
                            r as int,
                            c as int,
                        ) && s.display[p],
                    x0 < 64,
                    y0 < 32,
                    n < 16,
                    gx == x0,
                    gy == y0,
                    gn == n,
                decreases 8 - c,
            {
                let ghost before = self@.display;
                let ghost fl = flipped;
                if pixels & (0x80u8 >> c) != 0 {
                    let idx = ((x0 + c as u16) % 64) as usize + 64 * (((y0 + r as u16) % 32) as usize);
                    proof {
                        lemma_pixel_index(gx, gy, r as int, c as int, 0);
                    }
                    let old_px = self.display[idx];
                    proof {
                        lemma_pixel_index(gx, gy, r as int, c as int, idx as int);
                        assert(!hit_before(s, gx, gy, gn, idx as int, r as int, c as int));
                        assert(hit_before(s, gx, gy, gn, idx as int, r as int, c as int + 1));
                    }
                    flipped = flipped || old_px;
                    self.display[idx] = !old_px;
                    proof {
                        assert forall|p: int| 0 <= p < DISPLAY_SIZE implies hit_before(
                            s,
                            gx,
                            gy,
                            gn,
                            p,
                            r as int,
                            c as int + 1,
                        ) == (hit_before(s, gx, gy, gn, p, r as int, c as int) || p == idx) by {
                            lemma_pixel_index(gx, gy, r as int, c as int, p);
                        }
                        assert(old_px == s.display[idx as int]);
                        if flipped {
                            if fl {
                                let w = choose|p: int|
                                    0 <= p < DISPLAY_SIZE && #[trigger] hit_before(
                                        s,
                                        gx,
                                        gy,
                                        gn,
                                        p,
                                        r as int,
                                        c as int,
                                    ) && s.display[p];
                                assert(hit_before(s, gx, gy, gn, w, r as int, c as int + 1));
                            } else {
                                assert(hit_before(s, gx, gy, gn, idx as int, r as int, c as int + 1));
                            }
                        }
                        if exists|p: int|
                            0 <= p < DISPLAY_SIZE && #[trigger] hit_before(
                                s,
                                gx,
                                gy,
                                gn,
                                p,
                                r as int,
                                c as int + 1,
                            ) && s.display[p] {
                            let w = choose|p: int|
                                0 <= p < DISPLAY_SIZE && #[trigger] hit_before(
                                    s,
                                    gx,
                                    gy,
                                    gn,
                                    p,
                                    r as int,
                                    c as int + 1,
                                ) && s.display[p];
                            if w != idx {
                                assert(hit_before(s, gx, gy, gn, w, r as int, c as int));
                            }
                        }
                    }
                } else {
                    proof {
                        assert forall|p: int| 0 <= p < DISPLAY_SIZE implies hit_before(
                            s,
                            gx,
                            gy,
                            gn,
                            p,
                            r as int,
                            c as int + 1,
                        ) == hit_before(s, gx, gy, gn, p, r as int, c as int) by {
                            lemma_pixel_index(gx, gy, r as int, c as int, p);
                        }
                        if flipped {
                            let w = choose|p: int|
                                0 <= p < DISPLAY_SIZE && #[trigger] hit_before(
                                    s,
                                    gx,
                                    gy,
                                    gn,
                                    p,
                                    r as int,
                                    c as int,
                                ) && s.display[p];
                            assert(hit_before(s, gx, gy, gn, w, r as int, c as int + 1));
                        }
                        if exists|p: int|
                            0 <= p < DISPLAY_SIZE && #[trigger] hit_before(
                                s,
                                gx,
                                gy,
                                gn,
                                p,
                                r as int,
                                c as int + 1,
                            ) && s.display[p] {
                            let w = choose|p: int|
                                0 <= p < DISPLAY_SIZE && #[trigger] hit_before(
                                    s,
                                    gx,
                                    gy,
                                    gn,
                                    p,
                                    r as int,
                                    c as int + 1,
                                ) && s.display[p];
                            assert(hit_before(s, gx, gy, gn, w, r as int, c as int));
                        }
                    }
                }
                c = c + 1;
            }
            proof {
                assert forall|p: int| 0 <= p < DISPLAY_SIZE implies hit_before(
                    s,
                    gx,
                    gy,
                    gn,
                    p,
                    r as int + 1,
                    0,
                ) == #[trigger] hit_before(s, gx, gy, gn, p, r as int, 8) by {}
                if flipped {
                    let w = choose|p: int|
                        0 <= p < DISPLAY_SIZE && #[trigger] hit_before(s, gx, gy, gn, p, r as int, 8)
                            && s.display[p];
                    assert(hit_before(s, gx, gy, gn, w, r as int + 1, 0));
                }
                if exists|p: int|
                    0 <= p < DISPLAY_SIZE && #[trigger] hit_before(s, gx, gy, gn, p, r as int + 1, 0)
                        && s.display[p] {
                    let w = choose|p: int|
                        0 <= p < DISPLAY_SIZE && #[trigger] hit_before(
                            s,
                            gx,
                            gy,
                            gn,
                            p,
                            r as int + 1,
                            0,
                        ) && s.display[p];
                    assert(hit_before(s, gx, gy, gn, w, r as int, 8));
                }
            }
            r = r + 1;
        }
        proof {
            assert(self@.display =~= drawn_display(s, gx, gy, gn));
            assert(self@ == (MachineModel { display: drawn_display(s, gx, gy, gn), ..s }));
            if flipped {
                let w = choose|p: int|
                    0 <= p < DISPLAY_SIZE && #[trigger] hit_before(s, gx, gy, gn, p, gn, 0)
                        && s.display[p];
                assert(sprite_hit(s, gx, gy, gn, w));
            }
            if draw_collides(s, gx, gy, gn) {
                let w = choose|p: int|
                    0 <= p < DISPLAY_SIZE && #[trigger] sprite_hit(s, gx, gy, gn, p) && s.display[p];
                assert(hit_before(s, gx, gy, gn, w, gn, 0));
            }
        }
        flipped
    }

    /// Writes the decimal digits of `val` at the index register and the two
    /// addresses after it.
    fn store_bcd(&mut self, val: u8)
        requires
            old(self)@.wf(),
        ensures
            final(self)@ == (MachineModel { ram: bcd_ram(old(self)@, val), ..old(self)@ }),
    {
        let base = self.i as usize;
        self.ram[base % 4096] = val / 100;
        self.ram[(base + 1) % 4096] = (val / 10) % 10;
        self.ram[(base + 2) % 4096] = val % 10;
    }

    /// Stores `V0..=Vx` into memory from the index register on.
    fn store_regs(&mut self, x: usize)
        requires
            old(self)@.wf(),
            x < REG_COUNT,
        ensures
            final(self)@ == (MachineModel { ram: stored_ram(old(self)@, x as int), ..old(self)@ }),
    {
        let ghost s = self@;
        let base = self.i as usize;
        let mut k: usize = 0;
        while k <= x
            invariant
                k <= x + 1,
                x < REG_COUNT,
                s == old(self)@,
                s.wf(),
                base == s.index,
                self@ == (MachineModel { ram: self@.ram, ..s }),
                self@.ram.len() == RAM_SIZE,
                forall|a: int|
                    0 <= a < RAM_SIZE ==> #[trigger] self@.ram[a] == if (a - s.index) % 4096 < k {
                        s.v[(a - s.index) % 4096]
                    } else {
                        s.ram[a]
                    },
            decreases x + 1 - k,
        {
            let addr = (base + k) % 4096;
            self.ram[addr] = self.v_reg[k];
            proof {
                assert forall|a: int| 0 <= a < RAM_SIZE implies #[trigger] self@.ram[a] == if (a
                    - s.index) % 4096 < k + 1 {
                    s.v[(a - s.index) % 4096]
                } else {
                    s.ram[a]
                } by {
                    lemma_offset(s.index as int, k as int, a);
                }
            }
            k = k + 1;
        }
        proof {
            assert(self@.ram =~= stored_ram(s, x as int));
        }
    }

    /// Loads `V0..=Vx` from memory at the index register on.
    fn load_regs(&mut self, x: usize)
        requires
            old(self)@.wf(),
            x < REG_COUNT,
        ensures
            final(self)@ == (MachineModel { v: loaded_regs(old(self)@, x as int), ..old(self)@ }),
    {
        let ghost s = self@;
        let base = self.i as usize;
        let mut k: usize = 0;
        while k <= x
            invariant
                k <= x + 1,
                x < REG_COUNT,
                s == old(self)@,
                s.wf(),
                base == s.index,
                self@ == (MachineModel { v: self@.v, ..s }),
                self@.v.len() == REG_COUNT,
                forall|j: int|
                    0 <= j < REG_COUNT ==> #[trigger] self@.v[j] == if j < k {
                        s.ram[s.addr_at(j)]
                    } else {
                        s.v[j]
                    },
            decreases x + 1 - k,
        {
            let b = self.ram[(base + k) % 4096];
            self.v_reg[k] = b;
            k = k + 1;
        }
        proof {
            assert(self@.v =~= loaded_regs(s, x as int));
        }
    }

    /// Executes `ins`, fetched at the program counter, which first moves past
    /// it; `rnd` is the byte that `Random` masks. A fault changes nothing.
    #[verifier::rlimit(60)]
    pub fn execute(&mut self, ins: Instruction, rnd: u8) -> (r: Result<(), Fault>)
        requires
            old(self)@.wf(),
            operands_in_range(ins),
        ensures
            outcome_is(old(self)@, r, final(self)@, exec_spec(old(self)@, ins, rnd)),
            final(self)@.wf(),
    {
        let ghost s = self@;
        match ins {
            Instruction::Return => {
                if self.sp == 0 {
                    return Err(Fault::StackUnderflow);
                }
            },
            Instruction::Call { addr } => {
                if self.sp as usize >= STACK_SIZE {
                    return Err(Fault::StackOverflow);
                }
            },
            Instruction::WaitKey { x } => {
                if self.lowest_key().is_none() {
                    return Ok(());
                }
            },
            _ => {},
        }
        self.pc = ((self.pc as u32 + 2) % 0x10000) as u16;
        match ins {
            Instruction::Nop => {},
            Instruction::ClearScreen => {
                self.display = vec![false; DISPLAY_SIZE];
                proof {
                    assert(self@.display =~= Seq::new(DISPLAY_SIZE as nat, |p: int| false));
                }
            },
            Instruction::Return => {
                self.sp = self.sp - 1;
                self.pc = self.stack[self.sp as usize];
            },
            Instruction::Jump { addr } => {
                self.pc = addr;
            },
            Instruction::Call { addr } => {
                let ret = self.pc;
                self.stack[self.sp as usize] = ret;
                self.sp = self.sp + 1;
                self.pc = addr;
            },
            Instruction::SkipEqImm { x, nn } => {
                let c = self.v_reg[x as usize] == nn;
                self.skip_if(c);
            },
            Instruction::SkipNeImm { x, nn } => {
                let c = self.v_reg[x as usize] != nn;
                self.skip_if(c);
            },
            Instruction::SkipEqReg { x, y } => {
                let c = self.v_reg[x as usize] == self.v_reg[y as usize];
                self.skip_if(c);
            },
            Instruction::SetImm { x, nn } => {
                self.set_reg(x as usize, nn);
            },
            Instruction::AddImm { x, nn } => {
                let val = ((self.v_reg[x as usize] as u16 + nn as u16) % 256) as u8;
                self.set_reg(x as usize, val);
            },
            Instruction::SetReg { x, y } => {
                let val = self.v_reg[y as usize];
                self.set_reg(x as usize, val);
            },
            Instruction::Or { x, y } => {
                let val = self.v_reg[x as usize] | self.v_reg[y as usize];
                self.set_reg(x as usize, val);
            },
            Instruction::And { x, y } => {
                let val = self.v_reg[x as usize] & self.v_reg[y as usize];
                self.set_reg(x as usize, val);
            },
            Instruction::Xor { x, y } => {
                let val = self.v_reg[x as usize] ^ self.v_reg[y as usize];
                self.set_reg(x as usize, val);
            },
            Instruction::AddReg { x, y } => {
                let sum = self.v_reg[x as usize] as u16 + self.v_reg[y as usize] as u16;
                let flag: u8 = if sum > 255 { 1 } else { 0 };
                self.set_reg_flag(x as usize, (sum % 256) as u8, flag);
            },
            Instruction::SubReg { x, y } => {
                let a = self.v_reg[x as usize];
                let b = self.v_reg[y as usize];
                let val = ((a as u16 + 256 - b as u16) % 256) as u8;
                let flag: u8 = if a < b { 0 } else { 1 };
                self.set_reg_flag(x as usize, val, flag);
            },
            Instruction::ShiftRight { x } => {
                let a = self.v_reg[x as usize];
                self.set_reg_flag(x as usize, a / 2, a % 2);
            },
            Instruction::SubRev { x, y } => {
                let a = self.v_reg[x as usize];
                let b = self.v_reg[y as usize];
                let val = ((b as u16 + 256 - a as u16) % 256) as u8;
                let flag: u8 = if b < a { 0 } else { 1 };
                self.set_reg_flag(y as usize, val, flag);
            },
            Instruction::ShiftLeft { x } => {
                let a = self.v_reg[x as usize];
                self.set_reg_flag(x as usize, ((a as u16 * 2) % 256) as u8, a / 128);
            },
            Instruction::SkipNeReg { x, y } => {
                let c = self.v_reg[x as usize] != self.v_reg[y as usize];
                self.skip_if(c);
            },
            Instruction::SetIndex { addr } => {
                self.i = addr;
            },
            Instruction::JumpOffset { addr } => {
                self.pc = self.v_reg[0] as u16 + addr;
            },
            Instruction::Random { x, nn } => {
                self.set_reg(x as usize, rnd & nn);
            },
            Instruction::Draw { x, y, n } => {
                let x0 = (self.v_reg[x as usize] % 64) as u16;
                let y0 = (self.v_reg[y as usize] % 32) as u16;
                let collided = self.draw(x0, y0, n);
                self.set_reg(FLAG_REG, if collided { 1 } else { 0 });
            },
            Instruction::SkipKey { x } => {
                let c = self.key_down(self.v_reg[x as usize]);
                self.skip_if(c);
            },
            Instruction::SkipNoKey { x } => {
                let c = !self.key_down(self.v_reg[x as usize]);
                self.skip_if(c);
            },
            Instruction::ReadDelay { x } => {
                let val = self.delay_timer;
                self.set_reg(x as usize, val);
            },
            Instruction::WaitKey { x } => {
                match self.lowest_key() {
                    Some(k) => self.set_reg(x as usize, k),
                    None => {},
                }
            },
            Instruction::SetDelay { x } => {
                self.delay_timer = self.v_reg[x as usize];
            },
            Instruction::SetSound { x } => {
                self.sound_timer = self.v_reg[x as usize];
            },
            Instruction::AddIndex { x } => {
                self.i = ((self.i as u32 + self.v_reg[x as usize] as u32) % 0x10000) as u16;
            },
            Instruction::FontChar { x } => {
                self.i = self.v_reg[x as usize] as u16 * 5;
            },
            Instruction::Bcd { x } => {
                let val = self.v_reg[x as usize];
                self.store_bcd(val);
            },
            Instruction::StoreRegs { x } => {
                self.store_regs(x as usize);
            },
            Instruction::LoadRegs { x } => {
                self.load_regs(x as usize);
            },
        }
        Ok(())
    }
}

/// Relies on `rand::random::<u8>`, which draws a byte from the thread-local
/// generator; nothing is known of which byte comes out.
#[verifier::external_body]
fn random_byte() -> (r: u8) {
    rand::random::<u8>()
}

impl Chip8 {
    /// One fetch-decode-execute cycle, with `rnd` as the byte that a `CXNN`
    /// instruction masks. A fault leaves the machine unchanged.
    pub fn tick_with(&mut self, rnd: u8) -> (r: Result<(), Fault>)
        requires
            old(self)@.wf(),
        ensures
            outcome_is(old(self)@, r, final(self)@, step_spec(old(self)@, rnd)),
            final(self)@.wf(),
    {
        let op = self.fetch();
        match decode(op) {
            Some(ins) => self.execute(ins, rnd),
            None => Err(Fault::UnknownOpcode(op)),
        }
    }

    /// One fetch-decode-execute cycle, with a random byte for `CXNN`.
    pub fn tick(&mut self) -> (r: Result<(), Fault>)
        requires
            old(self)@.wf(),
        ensures
            exists|rnd: u8| outcome_is(old(self)@, r, final(self)@, step_spec(old(self)@, rnd)),
            final(self)@.wf(),
    {
        let rnd = random_byte();
        self.tick_with(rnd)
    }

    /// Moves both timers one step towards zero.
    pub fn tick_timers(&mut self)
        requires
            old(self)@.wf(),
        ensures
            final(self)@ == old(self)@.timers_ticked(),
    {
        if self.delay_timer > 0 {
            self.delay_timer = self.delay_timer - 1;
        }
        if self.sound_timer > 0 {
            self.sound_timer = self.sound_timer - 1;
        }
    }

    /// The frame buffer, row-major: pixel `(x, y)` at `x + 64 * y`.
    pub fn get_display(&self) -> (r: &[bool])
        ensures
            r@ == self@.display,
    {
        self.display.as_slice()
    }

    /// Sets key `idx` (0 to 15) pressed or released.
    pub fn key_press(&mut self, idx: usize, pressed: bool)
        requires
            old(self)@.wf(),
            idx < NUM_KEYS,
        ensures
            final(self)@ == (MachineModel { keys: old(self)@.keys.update(idx as int, pressed), ..old(self)@ }),
    {
        self.keys[idx] = pressed;
    }

    /// Copies `data` into memory from the start address on. A program longer
    /// than the space up to the end of memory is refused and nothing is written.
    pub fn load(&mut self, data: &[u8]) -> (r: Result<(), Fault>)
        requires
            old(self)@.wf(),
        ensures
            data@.len() > MAX_PROGRAM_SIZE ==> r == Err::<(), Fault>(Fault::LoadOverflow)
                && final(self)@ == old(self)@,
            data@.len() <= MAX_PROGRAM_SIZE ==> r == Ok::<(), Fault>(()) && final(self)@ == old(
                self,
            )@.loaded(data@),
            final(self)@.wf(),
    {
        if data.len() > MAX_PROGRAM_SIZE {
            return Err(Fault::LoadOverflow);
        }
        let ghost s = self@;
        let start = START_ADDRESS as usize;
        let mut k: usize = 0;
        while k < data.len()
            invariant
                k <= data@.len(),
                data@.len() <= MAX_PROGRAM_SIZE,
                start == START_ADDRESS,
                s.wf(),
                self@ == (MachineModel { ram: self@.ram, ..s }),
                self@.ram.len() == RAM_SIZE,
                forall|a: int|
                    0 <= a < RAM_SIZE ==> #[trigger] self@.ram[a] == if start <= a < start + k {
                        data@[a - start]
                    } else {
                        s.ram[a]
                    },
            decreases data@.len() - k,
        {
            self.ram[start + k] = data[k];
            k = k + 1;
        }
        proof {
            assert(self@.ram =~= s.loaded(data@).ram);
        }
        Ok(())
    }

    /// Register `Vx`.
    pub fn register(&self, x: usize) -> (r: u8)
        requires
            self@.wf(),
            x < REG_COUNT,
        ensures
            r == self@.v[x as int],
    {
        self.v_reg[x]
    }

    /// The byte at memory address `addr`.
    pub fn memory(&self, addr: usize) -> (r: u8)
        requires
            self@.wf(),
            addr < RAM_SIZE,
        ensures
            r == self@.ram[addr as int],
    {
        self.ram[addr]
    }

    /// The program counter.
    pub fn pc(&self) -> (r: u16)
        ensures
            r == self@.pc,
    {
        self.pc
    }

    /// The index register.
    pub fn index(&self) -> (r: u16)
        ensures
            r == self@.index,
    {
        self.i
    }

    /// The number of return addresses on the call stack.
    pub fn stack_depth(&self) -> (r: u16)
        ensures
            r == self@.sp,
    {
        self.sp
    }

    /// The delay timer.
    pub fn delay_timer(&self) -> (r: u8)
        ensures
            r == self@.delay_timer,
    {
        self.delay_timer
    }

    /// The sound timer.
    pub fn sound_timer(&self) -> (r: u8)
        ensures
            r == self@.sound_timer,
    {
        self.sound_timer
    }
}

} // verus!
