//! The execution engine: registers, memory, stack, display, keypad and timers,
//! advanced one fetch-decode-execute-tick cycle at a time.

use vstd::prelude::*;
use crate::font::{font_set, font_spec, FONT_SIZE};
use crate::machine::{
    add_imm_spec, advance, alu_spec, bcd_spec, call_spec, clear_spec, collides, cycle_spec,
    draw_spec, drawn_display, execute_spec, field_kk, field_n, field_x, field_y,
    first_pressed, first_pressed_from, key_skip_spec, load_regs_spec, loaded, misc_spec,
    return_spec, set_flag_then_reg, set_reg, skip_if, sprite_bit, sprite_col, sprite_row,
    store_regs_spec, tick, wait_key_spec, well_sized, CpuState, Fault,
};
use crate::rom_loader::RomLoader;
use crate::{INITIAL_PC, KEYPAD_SIZE, PIXELS, RAM_SIZE, REGISTER_COUNT, ROM_SIZE, STACK_SIZE, WIDTH};

verus! {

/// Width in bytes of one instruction.
const OPCODE_SIZE: u16 = 2;

/// A copy of the display, taken after a cycle for a renderer to read.
pub struct DisplayData {
    /// Pixels row-major: pixel (x, y) is at `y * 64 + x`; 1 is lit, 0 is dark.
    pub display: [u8; PIXELS],
}

impl DisplayData {
    /// The pixel at column `x`, row `y`.
    pub fn pixel(&self, x: usize, y: usize) -> (r: u8)
        requires
            x < 64,
            y < 32,
        ensures
            r == self.display@[y * 64 + x],
    {
        self.display[y * WIDTH + x]
    }
}

/// The interpreter. A key wait (FX0A) does not block: while no key is pressed
/// the instruction leaves PC in place, so every later cycle waits again.
pub struct Cpu {
    v: [u8; REGISTER_COUNT],
    i: u16,
    sound_timer: u8,
    delay_timer: u8,
    pc: u16,
    stack: [u16; STACK_SIZE],
    sp: u16,
    memory: [u8; RAM_SIZE],
    display: [u8; PIXELS],
    draw_flag: bool,
    keypad: [bool; KEYPAD_SIZE],
}

impl View for Cpu {
    type V = CpuState;

    closed spec fn view(&self) -> CpuState {
        CpuState {
            v: self.v@,
            i: self.i,
            pc: self.pc,
            sp: self.sp,
            stack: self.stack@,
            memory: self.memory@,
            display: self.display@,
            draw_flag: self.draw_flag,
            keypad: self.keypad@,
            delay_timer: self.delay_timer,
            sound_timer: self.sound_timer,
        }
    }
}

/// Whether pixel `p` is reached by the sprite at or before row `byte`, column `bit`.
spec fn covered(vx: u8, vy: u8, n: u8, p: int, byte: int, bit: int) -> bool {
    let r = sprite_row(vy, p / 64);
    let c = sprite_col(vx, p % 64);
    r < n && c < 8 && (r < byte || (r == byte && c < bit))
}

/// Pixel `p` once the sprite has been drawn up to row `byte`, column `bit`.
spec fn partly_drawn(s: CpuState, vx: u8, vy: u8, n: u8, p: int, byte: int, bit: int) -> u8 {
    if covered(vx, vy, n, p, byte, bit) {
        s.display[p] ^ sprite_bit(s, vx, vy, n, p)
    } else {
        s.display[p]
    }
}

/// Whether the sprite bit at pixel `p` turns a lit pixel off.
spec fn pixel_collides(s: CpuState, vx: u8, vy: u8, n: u8, p: int) -> bool {
    (sprite_bit(s, vx, vy, n, p) & s.display[p]) == 1
}

/// Relies on rand's `thread_rng` and `Rng::gen_range(0, 255)`, which returns a value
/// in the half-open range [0, 255).
#[verifier::external_body]
fn random_byte() -> (r: u8)
    ensures
        r < 255,
{
    rand::Rng::gen_range(&mut rand::thread_rng(), 0u8, 255u8)
}

impl Cpu {
    /// Every state has registers, stack, memory, display and keypad of their fixed sizes.
    pub proof fn lemma_well_sized(&self)
        ensures
            well_sized(self@),
    {
    }

    /// A fresh interpreter: the glyph table at address 0, the rest of memory,
    /// the registers, stack, display, keypad and timers zeroed, PC and I at 0x200.
    pub fn new() -> (r: Cpu)
        ensures
            forall|a: int| 0 <= a < FONT_SIZE ==> r@.memory[a] == font_spec()[a],
            forall|a: int| FONT_SIZE <= a < RAM_SIZE ==> r@.memory[a] == 0,
            forall|k: int| 0 <= k < 16 ==> r@.v[k] == 0 && r@.stack[k] == 0 && !r@.keypad[k],
            forall|p: int| 0 <= p < PIXELS ==> r@.display[p] == 0,
            r@.pc == INITIAL_PC,
            r@.i == INITIAL_PC,
            r@.sp == 0,
            !r@.draw_flag,
            r@.delay_timer == 0,
            r@.sound_timer == 0,
    {
        let font = font_set();
        let mut memory: [u8; RAM_SIZE] = [0u8; RAM_SIZE];
        let mut a: usize = 0;
        while a < FONT_SIZE
            invariant
                a <= FONT_SIZE,
                font@ == font_spec(),
                forall|b: int| 0 <= b < a ==> memory@[b] == font_spec()[b],
                forall|b: int| a <= b < RAM_SIZE ==> memory@[b] == 0,
            decreases FONT_SIZE - a,
        {
            memory[a] = font[a];
            a = a + 1;
        }
        Cpu {
            v: [0u8; REGISTER_COUNT],
            i: INITIAL_PC,
            sound_timer: 0,
            delay_timer: 0,
            pc: INITIAL_PC,
            stack: [0u16; STACK_SIZE],
            sp: 0,
            memory,
            display: [0u8; PIXELS],
            draw_flag: false,
            keypad: [false; KEYPAD_SIZE],
        }
    }

    fn next_instruction(&mut self)
        requires
            old(self).pc < 4095,
        ensures
            final(self)@ == advance(old(self)@),
    {
        self.pc = self.pc + OPCODE_SIZE;
    }

    fn skip_if_true(&mut self, condition: bool)
        requires
            old(self).pc < 4095,
        ensures
            final(self)@ == skip_if(old(self)@, condition),
    {
        if condition {
            self.pc = self.pc + OPCODE_SIZE * 2;
        } else {
            self.pc = self.pc + OPCODE_SIZE;
        }
    }

    fn jump_instruction(&mut self, location: u16)
        ensures
            final(self)@ == (CpuState { pc: location, ..old(self)@ }),
    {
        self.pc = location;
    }

    fn set_flag_then_register(&mut self, x: u8, flag: bool, val: u8)
        requires
            x < 16,
            old(self).pc < 4095,
        ensures
            final(self)@ == advance(set_flag_then_reg(old(self)@, x as int, flag, val)),
    {
        self.v[15] = if flag { 1 } else { 0 };
        self.v[x as usize] = val;
        self.next_instruction();
    }

    fn execute_00E0(&mut self)
        requires
            old(self).pc < 4095,
        ensures
            final(self)@ == clear_spec(old(self)@),
    {
        let mut p: usize = 0;
        while p < PIXELS
            invariant
                p <= PIXELS,
                self.pc == old(self).pc,
                self@ == (CpuState { display: self@.display, ..old(self)@ }),
                forall|q: int| 0 <= q < p ==> self.display@[q] == 0,
            decreases PIXELS - p,
        {
            self.display[p] = 0;
            p = p + 1;
        }
        assert(self.display@ =~= Seq::new(2048, |q: int| 0u8));
        self.draw_flag = true;
        self.next_instruction();
    }

    fn execute_00EE(&mut self) -> (r: Result<(), Fault>)
        ensures
            match return_spec(old(self)@) {
                Ok(s) => r == Ok::<(), Fault>(()) && final(self)@ == s,
                Err(e) => r == Err::<(), Fault>(e) && final(self)@ == old(self)@,
            },
    {
        if self.sp == 0 || self.sp as usize > STACK_SIZE {
            return Err(Fault::StackUnderflow);
        }
        self.sp = self.sp - 1;
        let target = self.stack[self.sp as usize];
        self.jump_instruction(target);
        Ok(())
    }

    fn execute_2NNN(&mut self, nnn: u16) -> (r: Result<(), Fault>)
        requires
            old(self).pc < 4095,
        ensures
            match call_spec(old(self)@, nnn) {
                Ok(s) => r == Ok::<(), Fault>(()) && final(self)@ == s,
                Err(e) => r == Err::<(), Fault>(e) && final(self)@ == old(self)@,
            },
    {
        if self.sp as usize >= STACK_SIZE {
            return Err(Fault::StackOverflow);
        }
        self.stack[self.sp as usize] = self.pc + OPCODE_SIZE;
        self.sp = self.sp + 1;
        self.jump_instruction(nnn);
        Ok(())
    }

    fn execute_6XKK(&mut self, x: u8, kk: u8)
        requires
            x < 16,
            old(self).pc < 4095,
        ensures
            final(self)@ == advance(set_reg(old(self)@, x as int, kk)),
    {
        self.v[x as usize] = kk;
        self.next_instruction();
    }

    fn execute_7XKK(&mut self, x: u8, kk: u8)
        requires
            x < 16,
            old(self).pc < 4095,
        ensures
            final(self)@ == add_imm_spec(old(self)@, x, kk),
    {
        let vx = self.v[x as usize];
        let carry = vx > 255 - kk;
        self.set_flag_then_register(x, carry, vx.wrapping_add(kk));
    }

    /// The 8XY_ family, selected by the last nibble `n`.
    fn execute_8XYN(&mut self, opcode: u16, x: u8, y: u8, n: u8) -> (r: Result<(), Fault>)
        requires
            x == field_x(opcode),
            y == field_y(opcode),
            n == field_n(opcode),
            old(self).pc < 4095,
        ensures
            match alu_spec(old(self)@, opcode) {
                Ok(s) => r == Ok::<(), Fault>(()) && final(self)@ == s,
                Err(e) => r == Err::<(), Fault>(e) && final(self)@ == old(self)@,
            },
    {
        let vx = self.v[x as usize];
        let vy = self.v[y as usize];
        if n == 0x0 {
            self.v[x as usize] = vy;
            self.next_instruction();
        } else if n == 0x1 {
            self.v[x as usize] = vx | vy;
            self.next_instruction();
        } else if n == 0x2 {
            self.v[x as usize] = vx & vy;
            self.next_instruction();
        } else if n == 0x3 {
            self.v[x as usize] = vx ^ vy;
            self.next_instruction();
        } else if n == 0x4 {
            let sum: u16 = vx as u16 + vy as u16;
            self.set_flag_then_register(x, sum > 255, (sum % 256) as u8);
        } else if n == 0x5 {
            // VF is the "no borrow" flag.
            self.set_flag_then_register(x, vx > vy, vx.wrapping_sub(vy));
        } else if n == 0x6 {
            self.set_flag_then_register(x, vx & 1 == 1, vx >> 1);
        } else if n == 0x7 {
            self.set_flag_then_register(x, vy > vx, vy.wrapping_sub(vx));
        } else if n == 0xE {
            self.set_flag_then_register(x, vx & 0x80 == 0x80, vx.wrapping_mul(2));
        } else {
            return Err(Fault::InvalidOpcode(opcode));
        }
        proof {
            if n == 6 {
                assert(vx & 1 == vx % 2) by (bit_vector);
                assert(vx >> 1 == vx / 2) by (bit_vector);
            }
            if n == 0xE {
                assert((vx & 0x80 == 0x80) == (vx >= 128)) by (bit_vector);
            }
        }
        Ok(())
    }

    fn execute_EX(&mut self, x: u8, when_pressed: bool) -> (r: Result<(), Fault>)
        requires
            x < 16,
            old(self).pc < 4095,
        ensures
            match key_skip_spec(old(self)@, x, when_pressed) {
                Ok(s) => r == Ok::<(), Fault>(()) && final(self)@ == s,
                Err(e) => r == Err::<(), Fault>(e) && final(self)@ == old(self)@,
            },
    {
        let key: u8 = self.v[x as usize];
        if key as usize >= KEYPAD_SIZE {
            return Err(Fault::InvalidKey(key));
        }
        let pressed = self.keypad[key as usize];
        self.skip_if_true(pressed == when_pressed);
        Ok(())
    }

    fn execute_FX0A(&mut self, x: u8)
        requires
            x < 16,
            old(self).pc < 4095,
        ensures
            final(self)@ == wait_key_spec(old(self)@, x),
    {
        match self.pressed_key() {
            Some(k) => {
                self.v[x as usize] = k;
                self.next_instruction();
            },
            None => {},
        }
    }

    /// The lowest key pressed in the current keypad snapshot.
    fn pressed_key(&self) -> (r: Option<u8>)
        ensures
            r == first_pressed(self@.keypad),
    {
        let mut k: usize = 0;
        while k < KEYPAD_SIZE
            invariant
                k <= KEYPAD_SIZE,
                first_pressed(self@.keypad) == first_pressed_from(self@.keypad, k as int),
            decreases KEYPAD_SIZE - k,
        {
            if self.keypad[k] {
                return Some(k as u8);
            }
            k = k + 1;
        }
        None
    }

    fn execute_FX33(&mut self, x: u8) -> (r: Result<(), Fault>)
        requires
            x < 16,
            old(self).pc < 4095,
        ensures
            match bcd_spec(old(self)@, x) {
                Ok(s) => r == Ok::<(), Fault>(()) && final(self)@ == s,
                Err(e) => r == Err::<(), Fault>(e) && final(self)@ == old(self)@,
            },
    {
        let value_x = self.v[x as usize];
        let a = self.i as usize;
        if a + 2 >= RAM_SIZE {
            return Err(Fault::MemoryOutOfRange);
        }
        self.memory[a] = value_x / 100;
        self.memory[a + 1] = (value_x % 100) / 10;
        self.memory[a + 2] = value_x % 10;
        self.next_instruction();
        Ok(())
    }

    fn execute_FX55(&mut self, x: u8) -> (r: Result<(), Fault>)
        requires
            x < 16,
            old(self).pc < 4095,
        ensures
            match store_regs_spec(old(self)@, x) {
                Ok(s) => r == Ok::<(), Fault>(()) && final(self)@ == s,
                Err(e) => r == Err::<(), Fault>(e) && final(self)@ == old(self)@,
            },
    {
        let base = self.i as usize;
        if base + x as usize >= RAM_SIZE {
            return Err(Fault::MemoryOutOfRange);
        }
        let mut k: usize = 0;
        while k <= x as usize
            invariant
                k <= x as usize + 1,
                base == old(self).i,
                base + x < RAM_SIZE,
                x < 16,
                self@ == (CpuState { memory: self@.memory, ..old(self)@ }),
                forall|a: int|
                    0 <= a < RAM_SIZE ==> self.memory@[a] == (if base <= a < base + k {
                        old(self).v@[a - base]
                    } else {
                        old(self).memory@[a]
                    }),
            decreases x as usize + 1 - k,
        {
            self.memory[base + k] = self.v[k];
            k = k + 1;
        }
        assert(self.memory@ =~= Seq::new(
            4096,
            |a: int|
                if old(self)@.i <= a <= old(self)@.i + x {
                    old(self)@.v[a - old(self)@.i]
                } else {
                    old(self)@.memory[a]
                },
        ));
        self.next_instruction();
        Ok(())
    }

    fn execute_FX65(&mut self, x: u8) -> (r: Result<(), Fault>)
        requires
            x < 16,
            old(self).pc < 4095,
        ensures
            match load_regs_spec(old(self)@, x) {
                Ok(s) => r == Ok::<(), Fault>(()) && final(self)@ == s,
                Err(e) => r == Err::<(), Fault>(e) && final(self)@ == old(self)@,
            },
    {
        let base = self.i as usize;
        if base + x as usize >= RAM_SIZE {
            return Err(Fault::MemoryOutOfRange);
        }
        let mut k: usize = 0;
        while k <= x as usize
            invariant
                k <= x as usize + 1,
                base == old(self).i,
                base + x < RAM_SIZE,
                x < 16,
                self@ == (CpuState { v: self@.v, ..old(self)@ }),
                forall|j: int|
                    0 <= j < 16 ==> self.v@[j] == (if j < k {
                        old(self).memory@[base + j]
                    } else {
                        old(self).v@[j]
                    }),
            decreases x as usize + 1 - k,
        {
            self.v[k] = self.memory[base + k];
            k = k + 1;
        }
        assert(self.v@ =~= Seq::new(
            16,
            |j: int| if j <= x { old(self)@.memory[old(self)@.i + j] } else { old(self)@.v[j] },
        ));
        self.next_instruction();
        Ok(())
    }

    /// The FX__ family, selected by the low byte `kk`.
    fn execute_FXKK(&mut self, opcode: u16, x: u8, kk: u8) -> (r: Result<(), Fault>)
        requires
            x == field_x(opcode),
            kk == field_kk(opcode),
            old(self).pc < 4095,
        ensures
            match misc_spec(old(self)@, opcode) {
                Ok(s) => r == Ok::<(), Fault>(()) && final(self)@ == s,
                Err(e) => r == Err::<(), Fault>(e) && final(self)@ == old(self)@,
            },
    {
        let vx = self.v[x as usize];
        if kk == 0x07 {
            self.v[x as usize] = self.delay_timer;
            self.next_instruction();
        } else if kk == 0x0A {
            self.execute_FX0A(x);
        } else if kk == 0x15 {
            self.delay_timer = vx;
            self.next_instruction();
        } else if kk == 0x18 {
            self.sound_timer = vx;
            self.next_instruction();
        } else if kk == 0x1E {
            self.i = self.i.wrapping_add(vx as u16);
            self.next_instruction();
        } else if kk == 0x29 {
            self.i = vx as u16 * 5;
            self.next_instruction();
        } else if kk == 0x33 {
            return self.execute_FX33(x);
        } else if kk == 0x55 {
            return self.execute_FX55(x);
        } else if kk == 0x65 {
            return self.execute_FX65(x);
        } else {
            return Err(Fault::InvalidOpcode(opcode));
        }
        Ok(())
    }

    /// Draws sprite row `byte`, column `bit` at pixel `p`; each pixel is hit at most once.
    proof fn lemma_sprite_cell(vx: u8, vy: u8, byte: int, bit: int, p: int)
        requires
            0 <= byte < 16,
            0 <= bit < 8,
            0 <= p < 2048,
        ensures
            (p == ((vy + byte) % 32) * 64 + (vx + bit) % 64) <==> (sprite_row(vy, p / 64) == byte
                && sprite_col(vx, p % 64) == bit),
    {
        let y = (vy + byte) % 32;
        let x = (vx + bit) % 64;
        assert(0 <= p / 64 < 32);
        assert(((y - vy) % 32 == byte)) by {
            assert((y - vy) % 32 == byte % 32);
        }
        assert(((x - vx) % 64 == bit)) by {
            assert((x - vx) % 64 == bit % 64);
        }
        if sprite_row(vy, p / 64) == byte && sprite_col(vx, p % 64) == bit {
            assert(p / 64 == y);
            assert(p % 64 == x);
            assert(p == (p / 64) * 64 + p % 64);
        }
    }

    fn execute_DXYN(&mut self, x: u8, y: u8, n: u8) -> (r: Result<(), Fault>)
        requires
            x < 16,
            y < 16,
            n < 16,
            old(self).pc < 4095,
        ensures
            match draw_spec(old(self)@, x, y, n) {
                Ok(s) => r == Ok::<(), Fault>(()) && final(self)@ == s,
                Err(e) => r == Err::<(), Fault>(e) && final(self)@ == old(self)@,
            },
    {
        let value_x: u8 = self.v[x as usize];
        let value_y: u8 = self.v[y as usize];
        let base = self.i as usize;
        if base + n as usize > RAM_SIZE {
            return Err(Fault::MemoryOutOfRange);
        }
        let ghost s0 = self@;
        proof {
            self.lemma_well_sized();
        }
        let mut collision: u8 = 0;
        let mut byte: u8 = 0;
        while byte < n
            invariant
                byte <= n,
                n < 16,
                base == s0.i,
                base + n <= RAM_SIZE,
                well_sized(s0),
                self@ == (CpuState { display: self@.display, ..s0 }),
                collision <= 1,
                (collision == 1) <==> (exists|p: int|
                    0 <= p < 2048 && covered(value_x, value_y, n, p, byte as int, 0)
                        && #[trigger] pixel_collides(s0, value_x, value_y, n, p)),
                forall|p: int|
                    0 <= p < 2048 ==> self.display@[p] == #[trigger] partly_drawn(
                        s0,
                        value_x,
                        value_y,
                        n,
                        p,
                        byte as int,
                        0,
                    ),
            decreases n - byte,
        {
            let row = self.memory[base + byte as usize];
            let py = ((value_y as usize + byte as usize) % 32) as usize;
            let mut bit: u8 = 0;
            while bit < 8
                invariant
                    byte < n,
                    n < 16,
                    bit <= 8,
                    base == s0.i,
                    base + n <= RAM_SIZE,
                    well_sized(s0),
                    row == s0.memory[base + byte],
                    py == (value_y + byte) % 32,
                    self@ == (CpuState { display: self@.display, ..s0 }),
                    collision <= 1,
                    (collision == 1) <==> (exists|p: int|
                        0 <= p < 2048 && covered(value_x, value_y, n, p, byte as int, bit as int)
                            && #[trigger] pixel_collides(s0, value_x, value_y, n, p)),
                    forall|p: int|
                        0 <= p < 2048 ==> self.display@[p] == #[trigger] partly_drawn(
                            s0,
                            value_x,
                            value_y,
                            n,
                            p,
                            byte as int,
                            bit as int,
                        ),
                decreases 8 - bit,
            {
                let px = ((value_x as usize + bit as usize) % 64) as usize;
                let p0 = py * WIDTH + px;
                let shifted = row >> (7 - bit);
                let color = shifted & 1;
                assert(p0 < 2048);
                assert(self.display@[p0 as int] == partly_drawn(
                    s0,
                    value_x,
                    value_y,
                    n,
                    p0 as int,
                    byte as int,
                    bit as int,
                ));
                let ghost before = self.display@;
                let old_pixel = self.display[p0];
                let c = color & old_pixel;
                let new_collision = collision | c;
                proof {
                    assert forall|p: int| 0 <= p < 2048 implies (p == p0) <==> (#[trigger] sprite_row(
                        value_y,
                        p / 64,
                    ) == byte && sprite_col(value_x, p % 64) == bit) by {
                        Self::lemma_sprite_cell(value_x, value_y, byte as int, bit as int, p);
                    }
                    assert(sprite_row(value_y, p0 as int / 64) == byte && sprite_col(
                        value_x,
                        p0 as int % 64,
                    ) == bit);
                    assert(color == sprite_bit(s0, value_x, value_y, n, p0 as int));
                    assert(!covered(value_x, value_y, n, p0 as int, byte as int, bit as int));
                    assert(old_pixel == s0.display[p0 as int]);
                    assert(color <= 1 && c <= 1 && ((new_collision == 1) <==> (collision == 1 || c
                        == 1)) && new_collision <= 1) by (bit_vector)
                        requires
                            color == shifted & 1,
                            c == color & old_pixel,
                            collision <= 1,
                            new_collision == collision | c,
                    ;
                    assert(c == 1 ==> pixel_collides(s0, value_x, value_y, n, p0 as int));
                    assert forall|p: int|
                        0 <= p < 2048 && p != p0 implies covered(
                        value_x,
                        value_y,
                        n,
                        p,
                        byte as int,
                        bit + 1,
                    ) == covered(value_x, value_y, n, p, byte as int, bit as int) by {
                        Self::lemma_sprite_cell(value_x, value_y, byte as int, bit as int, p);
                    }
                }
                collision = new_collision;
                self.display[p0] = old_pixel ^ color;
                bit = bit + 1;
                proof {
                    assert forall|p: int| 0 <= p < 2048 implies self.display@[p]
                        == #[trigger] partly_drawn(
                        s0,
                        value_x,
                        value_y,
                        n,
                        p,
                        byte as int,
                        bit as int,
                    ) by {
                        if p != p0 {
                            Self::lemma_sprite_cell(
                                value_x,
                                value_y,
                                byte as int,
                                bit - 1,
                                p,
                            );
                            assert(before[p] == partly_drawn(
                                s0,
                                value_x,
                                value_y,
                                n,
                                p,
                                byte as int,
                                bit - 1,
                            ));
                        } else {
                            assert(covered(value_x, value_y, n, p, byte as int, bit as int));
                        }
                    }
                    if collision == 1 {
                        if c == 1 {
                            assert(pixel_collides(s0, value_x, value_y, n, p0 as int));
                        } else {
                            let w = choose|p: int|
                                0 <= p < 2048 && covered(
                                    value_x,
                                    value_y,
                                    n,
                                    p,
                                    byte as int,
                                    bit - 1,
                                ) && #[trigger] pixel_collides(s0, value_x, value_y, n, p);
                            Self::lemma_sprite_cell(value_x, value_y, byte as int, bit - 1, w);
                            assert(covered(value_x, value_y, n, w, byte as int, bit as int));
                        }
                    }
                    if exists|p: int|
                        0 <= p < 2048 && covered(value_x, value_y, n, p, byte as int, bit as int)
                            && #[trigger] pixel_collides(s0, value_x, value_y, n, p) {
                        let w = choose|p: int|
                            0 <= p < 2048 && covered(value_x, value_y, n, p, byte as int, bit as int)
                                && #[trigger] pixel_collides(s0, value_x, value_y, n, p);
                        Self::lemma_sprite_cell(value_x, value_y, byte as int, bit - 1, w);
                        if w != p0 {
                            assert(covered(value_x, value_y, n, w, byte as int, bit - 1));
                        }
                    }
                }
            }
            byte = byte + 1;
            proof {
                assert forall|p: int| 0 <= p < 2048 implies covered(
                    value_x,
                    value_y,
                    n,
                    p,
                    byte as int,
                    0,
                ) == covered(value_x, value_y, n, p, byte - 1, 8) by {}
                assert forall|p: int| 0 <= p < 2048 implies self.display@[p]
                    == #[trigger] partly_drawn(s0, value_x, value_y, n, p, byte as int, 0) by {
                    assert(partly_drawn(s0, value_x, value_y, n, p, byte - 1, 8) == partly_drawn(
                        s0,
                        value_x,
                        value_y,
                        n,
                        p,
                        byte as int,
                        0,
                    ));
                }
            }
        }
        proof {
            assert forall|p: int| 0 <= p < 2048 implies self.display@[p] == drawn_display(
                s0,
                value_x,
                value_y,
                n,
            )[p] by {
                let d = s0.display[p];
                assert(d ^ 0 == d) by (bit_vector);
                assert(partly_drawn(s0, value_x, value_y, n, p, n as int, 0) == d ^ sprite_bit(
                    s0,
                    value_x,
                    value_y,
                    n,
                    p,
                ));
            }
            assert(self.display@ =~= drawn_display(s0, value_x, value_y, n));
            if collides(s0, value_x, value_y, n) {
                let w = choose|p: int|
                    0 <= p < 2048 && #[trigger] (sprite_bit(s0, value_x, value_y, n, p)
                        & s0.display[p]) == 1;
                let d = s0.display[w];
                assert(0 & d == 0) by (bit_vector);
                assert(covered(value_x, value_y, n, w, n as int, 0));
                assert(pixel_collides(s0, value_x, value_y, n, w));
            }
            if collision == 1 {
                let w = choose|p: int|
                    0 <= p < 2048 && covered(value_x, value_y, n, p, n as int, 0)
                        && #[trigger] pixel_collides(s0, value_x, value_y, n, p);
                assert((sprite_bit(s0, value_x, value_y, n, w) & s0.display[w]) == 1);
            }
        }
        self.v[15] = collision;
        self.draw_flag = true;
        self.next_instruction();
        Ok(())
    }

    /// Executes one instruction word. `random` is the byte that CXKK masks with KK.
    /// On a fault the state is left as it was.
    pub fn decode_opcode(&mut self, opcode: u16, random: u8) -> (r: Result<(), Fault>)
        requires
            old(self)@.pc < 4095,
        ensures
            match execute_spec(old(self)@, opcode, random) {
                Ok(s) => r == Ok::<(), Fault>(()) && final(self)@ == s,
                Err(e) => r == Err::<(), Fault>(e) && final(self)@ == old(self)@,
            },
    {
        let family = opcode / 4096;
        let nnn = opcode % 4096;
        let kk = (opcode % 256) as u8;
        let x = ((opcode / 256) % 16) as u8;
        let y = ((opcode / 16) % 16) as u8;
        let n = (opcode % 16) as u8;
        let vx = self.v[x as usize];
        let vy = self.v[y as usize];
        if opcode == 0x00E0 {
            self.execute_00E0();
        } else if opcode == 0x00EE {
            return self.execute_00EE();
        } else if family == 0x1 {
            self.jump_instruction(nnn);
        } else if family == 0x2 {
            return self.execute_2NNN(nnn);
        } else if family == 0x3 {
            self.skip_if_true(vx == kk);
        } else if family == 0x4 {
            self.skip_if_true(vx != kk);
        } else if family == 0x5 && n == 0 {
            self.skip_if_true(vx == vy);
        } else if family == 0x6 {
            self.execute_6XKK(x, kk);
        } else if family == 0x7 {
            self.execute_7XKK(x, kk);
        } else if family == 0x8 {
            return self.execute_8XYN(opcode, x, y, n);
        } else if family == 0x9 && n == 0 {
            self.skip_if_true(vx != vy);
        } else if family == 0xA {
            self.i = nnn;
            self.next_instruction();
        } else if family == 0xB {
            let target = self.v[0] as u16 + nnn;
            self.jump_instruction(target);
        } else if family == 0xC {
            self.execute_6XKK(x, random & kk);
        } else if family == 0xD {
            return self.execute_DXYN(x, y, n);
        } else if family == 0xE && kk == 0x9E {
            return self.execute_EX(x, true);
        } else if family == 0xE && kk == 0xA1 {
            return self.execute_EX(x, false);
        } else if family == 0xF {
            return self.execute_FXKK(opcode, x, kk);
        } else {
            return Err(Fault::InvalidOpcode(opcode));
        }
        Ok(())
    }

    /// Counts both timers down by one, stopping at zero. Returns whether the
    /// sound timer ran out now, that is, whether it was 1.
    pub fn update_timer(&mut self) -> (sound_expired: bool)
        ensures
            final(self)@ == tick(old(self)@),
            sound_expired == (old(self)@.sound_timer == 1),
    {
        if self.delay_timer > 0 {
            self.delay_timer = self.delay_timer - 1;
        }
        let sound_expired = self.sound_timer == 1;
        if self.sound_timer > 0 {
            self.sound_timer = self.sound_timer - 1;
        }
        sound_expired
    }

    /// Takes a snapshot of the keypad, one flag per logical key, and returns
    /// the lowest pressed key, if any.
    pub fn get_input(&mut self, keys: [bool; KEYPAD_SIZE]) -> (r: Option<u8>)
        ensures
            final(self)@ == (CpuState { keypad: keys@, ..old(self)@ }),
            r == first_pressed(keys@),
    {
        self.keypad = keys;
        self.pressed_key()
    }

    /// One cycle with a given random byte for CXKK: refresh the keypad, lower
    /// the redraw flag, fetch the word at PC, execute it and tick the timers.
    /// `Ok(b)`: `b` tells whether the sound timer ran out on this cycle. On a
    /// fault the timers do not tick and the instruction has no effect.
    pub fn run_cycle(&mut self, keys: [bool; KEYPAD_SIZE], random: u8) -> (r: Result<bool, Fault>)
        ensures
            (final(self)@, r) == cycle_spec(old(self)@, keys@, random),
    {
        self.get_input(keys);
        self.draw_flag = false;
        let pc = self.pc as usize;
        if pc + 1 >= RAM_SIZE {
            return Err(Fault::MemoryOutOfRange);
        }
        let opcode: u16 = (self.memory[pc] as u16) * 256 + self.memory[pc + 1] as u16;
        match self.decode_opcode(opcode, random) {
            Ok(()) => Ok(self.update_timer()),
            Err(e) => Err(e),
        }
    }

    /// One cycle, drawing the random byte that CXKK masks.
    pub fn emulate_cycle(&mut self, keys: [bool; KEYPAD_SIZE]) -> (r: Result<bool, Fault>)
        ensures
            exists|random: u8|
                random < 255 && (final(self)@, r) == cycle_spec(old(self)@, keys@, random),
    {
        let random = random_byte();
        self.run_cycle(keys, random)
    }

    /// Copies the program image into memory from 0x200 on.
    pub fn load_program(&mut self, rom_loader: &RomLoader)
        requires
            rom_loader.wf(),
        ensures
            final(self)@ == loaded(old(self)@, rom_loader@),
    {
        let program = rom_loader.get_data();
        let length = rom_loader.get_length();
        let base = INITIAL_PC as usize;
        let mut k: usize = 0;
        while k < length
            invariant
                k <= length <= ROM_SIZE,
                base == 0x200,
                length == rom_loader@.len(),
                forall|j: int| 0 <= j < length ==> program@[j] == rom_loader@[j],
                self@ == (CpuState { memory: self@.memory, ..old(self)@ }),
                forall|a: int|
                    0 <= a < RAM_SIZE ==> self.memory@[a] == (if base <= a < base + k {
                        rom_loader@[a - base]
                    } else {
                        old(self)@.memory[a]
                    }),
            decreases length - k,
        {
            self.memory[base + k] = program[k];
            k = k + 1;
        }
        assert(self.memory@ =~= loaded(old(self)@, rom_loader@).memory);
    }

    /// Whether the display changed during the last cycle.
    pub fn get_draw_flag(&self) -> (r: bool)
        ensures
            r == self@.draw_flag,
    {
        self.draw_flag
    }

    /// A copy of the display.
    pub fn get_display(&self) -> (r: DisplayData)
        ensures
            r.display@ == self@.display,
    {
        DisplayData { display: self.display }
    }

    /// The value of register V`x`.
    pub fn get_register(&self, x: usize) -> (r: u8)
        requires
            x < REGISTER_COUNT,
        ensures
            r == self@.v[x as int],
    {
        self.v[x]
    }

    /// The program counter.
    pub fn get_pc(&self) -> (r: u16)
        ensures
            r == self@.pc,
    {
        self.pc
    }

    /// The index register I.
    pub fn get_index(&self) -> (r: u16)
        ensures
            r == self@.i,
    {
        self.i
    }

    /// The number of return addresses on the stack.
    pub fn get_stack_pointer(&self) -> (r: u16)
        ensures
            r == self@.sp,
    {
        self.sp
    }

    /// The delay timer.
    pub fn get_delay_timer(&self) -> (r: u8)
        ensures
            r == self@.delay_timer,
    {
        self.delay_timer
    }

    /// The sound timer.
    pub fn get_sound_timer(&self) -> (r: u8)
        ensures
            r == self@.sound_timer,
    {
        self.sound_timer
    }

    /// The byte at memory address `addr`.
    pub fn read_memory(&self, addr: usize) -> (r: u8)
        requires
            addr < RAM_SIZE,
        ensures
            r == self@.memory[addr as int],
    {
        self.memory[addr]
    }
}

} // verus!
