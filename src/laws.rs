use vstd::prelude::*;

use crate::model::{
    exec_spec, lowest_key_from, sprite_hit, step_spec, decode_spec, trace, Instruction,
    MachineModel, DISPLAY_SIZE, FLAG_REG, MAX_PROGRAM_SIZE, NUM_KEYS,
};

verus! {

/// `8XY4` leaves the sum modulo 256 in `Vx` (unless `Vx` is the flag register)
/// and sets the flag register to 1 exactly when the sum exceeds 255.
pub proof fn add_reg_carry(s: MachineModel, x: u8, y: u8, rnd: u8)
    requires
        s.wf(),
        x < 16,
        y < 16,
    ensures
        exec_spec(s, Instruction::AddReg { x, y }, rnd) is Ok,
        ({
            let t = exec_spec(s, Instruction::AddReg { x, y }, rnd)->Ok_0;
            &&& t.v[FLAG_REG as int] == if s.v[x as int] + s.v[y as int] > 255 { 1u8 } else { 0u8 }
            &&& x != FLAG_REG ==> t.v[x as int] == (s.v[x as int] + s.v[y as int]) % 256
        }),
{
}

/// `8XY5` leaves `Vx - Vy` modulo 256 in `Vx` (unless `Vx` is the flag
/// register) and sets the flag register to 0 exactly when `Vy > Vx` (a borrow).
pub proof fn sub_reg_borrow(s: MachineModel, x: u8, y: u8, rnd: u8)
    requires
        s.wf(),
        x < 16,
        y < 16,
    ensures
        exec_spec(s, Instruction::SubReg { x, y }, rnd) is Ok,
        ({
            let t = exec_spec(s, Instruction::SubReg { x, y }, rnd)->Ok_0;
            &&& t.v[FLAG_REG as int] == if s.v[x as int] < s.v[y as int] { 0u8 } else { 1u8 }
            &&& x != FLAG_REG ==> t.v[x as int] == (s.v[x as int] - s.v[y as int] + 256) % 256
        }),
{
}

/// `8XY7` leaves `Vy - Vx` modulo 256 in `Vy` (unless `Vy` is the flag
/// register) and sets the flag register to 0 exactly when `Vx > Vy` (a borrow).
pub proof fn sub_rev_borrow(s: MachineModel, x: u8, y: u8, rnd: u8)
    requires
        s.wf(),
        x < 16,
        y < 16,
    ensures
        exec_spec(s, Instruction::SubRev { x, y }, rnd) is Ok,
        ({
            let t = exec_spec(s, Instruction::SubRev { x, y }, rnd)->Ok_0;
            &&& t.v[FLAG_REG as int] == if s.v[y as int] < s.v[x as int] { 0u8 } else { 1u8 }
            &&& y != FLAG_REG ==> t.v[y as int] == (s.v[y as int] - s.v[x as int] + 256) % 256
        }),
{
}

/// `8XY6` puts the low bit of `Vx`, as it was before the shift, into the flag
/// register, and halves `Vx` (unless `Vx` is the flag register).
pub proof fn shift_right_bit(s: MachineModel, x: u8, rnd: u8)
    requires
        s.wf(),
        x < 16,
    ensures
        exec_spec(s, Instruction::ShiftRight { x }, rnd) is Ok,
        ({
            let t = exec_spec(s, Instruction::ShiftRight { x }, rnd)->Ok_0;
            &&& t.v[FLAG_REG as int] == s.v[x as int] % 2
            &&& x != FLAG_REG ==> t.v[x as int] == s.v[x as int] / 2
        }),
{
}

/// `8XYE` puts the high bit of `Vx`, as it was before the shift, into the flag
/// register, and doubles `Vx` modulo 256 (unless `Vx` is the flag register).
pub proof fn shift_left_bit(s: MachineModel, x: u8, rnd: u8)
    requires
        s.wf(),
        x < 16,
    ensures
        exec_spec(s, Instruction::ShiftLeft { x }, rnd) is Ok,
        ({
            let t = exec_spec(s, Instruction::ShiftLeft { x }, rnd)->Ok_0;
            &&& t.v[FLAG_REG as int] == s.v[x as int] / 128
            &&& x != FLAG_REG ==> t.v[x as int] == (s.v[x as int] * 2) % 256
        }),
{
}

/// Drawing the same sprite twice at the same place (neither coordinate held in
/// the flag register) gives the frame buffer back as it was, and the second
/// draw reports a collision exactly when the sprite covers a pixel that was
/// clear before the first: then the first draw set it.
pub proof fn draw_twice_restores(s: MachineModel, x: u8, y: u8, n: u8, rnd: u8)
    requires
        s.wf(),
        x < 15,
        y < 15,
        n < 16,
    ensures
        exec_spec(s, Instruction::Draw { x, y, n }, rnd) is Ok,
        exec_spec(exec_spec(s, Instruction::Draw { x, y, n }, rnd)->Ok_0, Instruction::Draw { x, y, n }, rnd) is Ok,
        ({
            let x0 = s.v[x as int] as int % 64;
            let y0 = s.v[y as int] as int % 32;
            let s1 = exec_spec(s, Instruction::Draw { x, y, n }, rnd)->Ok_0;
            let s2 = exec_spec(s1, Instruction::Draw { x, y, n }, rnd)->Ok_0;
            &&& s2.display == s.display
            &&& (s2.v[FLAG_REG as int] == 1) == exists|p: int|
                0 <= p < DISPLAY_SIZE && #[trigger] sprite_hit(s, x0, y0, n as int, p)
                    && !s.display[p]
            &&& s2.v[FLAG_REG as int] == 0 || s2.v[FLAG_REG as int] == 1
        }),
{
    let x0 = s.v[x as int] as int % 64;
    let y0 = s.v[y as int] as int % 32;
    let ins = Instruction::Draw { x, y, n };
    let s1 = exec_spec(s, ins, rnd)->Ok_0;
    let s2 = exec_spec(s1, ins, rnd)->Ok_0;
    let t1 = s1.with_pc((s1.pc + 2) % 0x10000);
    assert(s1.v[x as int] == s.v[x as int]);
    assert(s1.v[y as int] == s.v[y as int]);
    assert forall|p: int| 0 <= p < DISPLAY_SIZE implies #[trigger] sprite_hit(t1, x0, y0, n as int, p)
        == sprite_hit(s, x0, y0, n as int, p) by {}
    assert(s2.display =~= s.display);
    let c2 = exists|p: int|
        0 <= p < DISPLAY_SIZE && #[trigger] sprite_hit(t1, x0, y0, n as int, p) && t1.display[p];
    let fresh = exists|p: int|
        0 <= p < DISPLAY_SIZE && #[trigger] sprite_hit(s, x0, y0, n as int, p) && !s.display[p];
    if c2 {
        let w = choose|p: int|
            0 <= p < DISPLAY_SIZE && #[trigger] sprite_hit(t1, x0, y0, n as int, p) && t1.display[p];
        assert(sprite_hit(s, x0, y0, n as int, w) && !s.display[w]);
    }
    if fresh {
        let w = choose|p: int|
            0 <= p < DISPLAY_SIZE && #[trigger] sprite_hit(s, x0, y0, n as int, p) && !s.display[p];
        assert(sprite_hit(t1, x0, y0, n as int, w) && t1.display[w]);
    }
}

/// A program loaded after a reset runs through exactly the states that the same
/// program loaded into a new machine runs through: both start from the one
/// initial state.
pub proof fn reset_then_load_runs_as_new(
    after_reset: MachineModel,
    new_machine: MachineModel,
    bytes: Seq<u8>,
    rnds: Seq<u8>,
)
    requires
        after_reset == MachineModel::initial(),
        new_machine == MachineModel::initial(),
        bytes.len() <= MAX_PROGRAM_SIZE,
    ensures
        after_reset.loaded(bytes) == new_machine.loaded(bytes),
        after_reset.loaded(bytes).wf(),
        trace(after_reset.loaded(bytes), rnds) == trace(new_machine.loaded(bytes), rnds),
{
}

/// `FX33` writes three decimal digits at the index register and the two
/// addresses after it (modulo the size of memory), and they spell `Vx`.
pub proof fn bcd_digits(s: MachineModel, x: u8, rnd: u8)
    requires
        s.wf(),
        x < 16,
    ensures
        exec_spec(s, Instruction::Bcd { x }, rnd) is Ok,
        ({
            let t = exec_spec(s, Instruction::Bcd { x }, rnd)->Ok_0;
            let d0 = t.ram[s.addr_at(0)];
            let d1 = t.ram[s.addr_at(1)];
            let d2 = t.ram[s.addr_at(2)];
            &&& d0 < 10 && d1 < 10 && d2 < 10
            &&& 100 * d0 + 10 * d1 + d2 == s.v[x as int]
        }),
{
}

/// The key that the key wait reports is pressed, and no key below it is.
pub proof fn lowest_key_is_least(keys: Seq<bool>, from: int)
    requires
        keys.len() == NUM_KEYS,
        0 <= from,
    ensures
        match lowest_key_from(keys, from) {
            Some(k) => from <= k < NUM_KEYS && keys[k as int] && forall|j: int|
                from <= j < k ==> !keys[j],
            None => forall|j: int| from <= j < NUM_KEYS ==> !keys[j],
        },
    decreases NUM_KEYS - from,
{
    if from < NUM_KEYS && !keys[from] {
        lowest_key_is_least(keys, from + 1);
    }
}

/// A step on `FX0A` with no key pressed leaves the machine as it was, program
/// counter included; with a key pressed it moves the program counter past the
/// instruction and puts the least pressed key's index in `Vx`.
pub proof fn wait_key_step(s: MachineModel, x: u8, rnd: u8)
    requires
        s.wf(),
        decode_spec(s.fetched()) == Some(Instruction::WaitKey { x }),
        x < 16,
    ensures
        step_spec(s, rnd) is Ok,
        (forall|j: int| 0 <= j < NUM_KEYS ==> !s.keys[j]) ==> step_spec(s, rnd)->Ok_0 == s,
        forall|k: int|
            0 <= k < NUM_KEYS && s.keys[k] && (forall|j: int| 0 <= j < k ==> !s.keys[j])
                ==> #[trigger] step_spec(s, rnd)->Ok_0 == s.with_pc((s.pc + 2) % 0x10000).with_reg(
                x as int,
                k as u8,
            ),
{
    lowest_key_is_least(s.keys, 0);
}

} // verus!
