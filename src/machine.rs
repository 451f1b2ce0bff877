//! The mathematical model of the interpreter: its state, the fields of an
//! instruction, and what one instruction and one cycle do to the state.

use vstd::prelude::*;

verus! {

/// Why a cycle could not complete. The state is left as it was before the instruction.
#[derive(Clone, Copy, Debug, PartialEq, Eq, Structural)]
pub enum Fault {
    /// The fetched word matches no instruction pattern.
    InvalidOpcode(u16),
    /// A call was made with all sixteen stack entries in use.
    StackOverflow,
    /// A return was made with no return address on the stack.
    StackUnderflow,
    /// An instruction or operand lies outside memory.
    MemoryOutOfRange,
    /// A key instruction named a key above 0xF.
    InvalidKey(u8),
}

/// The whole observable state of the interpreter.
pub struct CpuState {
    /// Registers V0..VF; VF also receives carry, borrow and collision flags.
    pub v: Seq<u8>,
    /// The index register I.
    pub i: u16,
    /// Address of the next instruction.
    pub pc: u16,
    /// Number of return addresses on the stack.
    pub sp: u16,
    /// Return addresses; entries below `sp` are in use.
    pub stack: Seq<u16>,
    /// The 4 KiB address space.
    pub memory: Seq<u8>,
    /// Pixels row-major, 64 to a row: pixel (x, y) is at `y * 64 + x`.
    pub display: Seq<u8>,
    /// Whether the display was written during the current cycle.
    pub draw_flag: bool,
    /// Which logical keys were held down when the cycle began.
    pub keypad: Seq<bool>,
    pub delay_timer: u8,
    pub sound_timer: u8,
}

/// Sequence lengths that every state of the interpreter has.
pub open spec fn well_sized(s: CpuState) -> bool {
    &&& s.v.len() == 16
    &&& s.stack.len() == 16
    &&& s.memory.len() == 4096
    &&& s.display.len() == 2048
    &&& s.keypad.len() == 16
}

// ----- instruction fields -----

/// The leading nibble, which selects the instruction family.
pub open spec fn family(op: u16) -> u16 {
    op / 4096
}

/// The second nibble: a register index.
pub open spec fn field_x(op: u16) -> u8 {
    ((op / 256) % 16) as u8
}

/// The third nibble: a register index.
pub open spec fn field_y(op: u16) -> u8 {
    ((op / 16) % 16) as u8
}

/// The fourth nibble: a literal 0..15.
pub open spec fn field_n(op: u16) -> u8 {
    (op % 16) as u8
}

/// The low twelve bits: an address.
pub open spec fn field_nnn(op: u16) -> u16 {
    op % 4096
}

/// The low byte: a literal.
pub open spec fn field_kk(op: u16) -> u8 {
    (op % 256) as u8
}

// ----- state helpers -----

/// Move to the next instruction.
pub open spec fn advance(s: CpuState) -> CpuState {
    CpuState { pc: (s.pc + 2) as u16, ..s }
}

/// Skip the next instruction when `cond` holds, else move to it.
pub open spec fn skip_if(s: CpuState, cond: bool) -> CpuState {
    CpuState { pc: (if cond { s.pc + 4 } else { s.pc + 2 }) as u16, ..s }
}

/// Write register `x`.
pub open spec fn set_reg(s: CpuState, x: int, val: u8) -> CpuState {
    CpuState { v: s.v.update(x, val), ..s }
}

/// Write VF, then Vx: the order that decides the result when `x` is 0xF.
pub open spec fn set_flag_then_reg(s: CpuState, x: int, flag: bool, val: u8) -> CpuState {
    set_reg(set_reg(s, 15, if flag { 1 } else { 0 }), x, val)
}

/// The lowest pressed key, if any, looking at keys `from` and above.
pub open spec fn first_pressed_from(keys: Seq<bool>, from: int) -> Option<u8>
    decreases 16 - from,
{
    if from >= 16 || from < 0 {
        None
    } else if keys[from] {
        Some(from as u8)
    } else {
        first_pressed_from(keys, from + 1)
    }
}

/// The lowest pressed key of a keypad, if any.
pub open spec fn first_pressed(keys: Seq<bool>) -> Option<u8> {
    first_pressed_from(keys, 0)
}

// ----- sprite drawing -----

/// The sprite row that covers display row `py` when the sprite's top is at `vy`.
pub open spec fn sprite_row(vy: u8, py: int) -> int {
    (py - vy) % 32
}

/// The sprite column that covers display column `px` when the sprite's left edge is at `vx`.
pub open spec fn sprite_col(vx: u8, px: int) -> int {
    (px - vx) % 64
}

/// Bit `col` of a sprite row, counted from the most significant bit.
pub open spec fn row_bit(b: u8, col: int) -> u8 {
    (b >> ((7 - col) as u8)) & 1
}

/// The sprite bit that lands on pixel `p`: 0 where the sprite does not reach.
pub open spec fn sprite_bit(s: CpuState, vx: u8, vy: u8, n: u8, p: int) -> u8 {
    let r = sprite_row(vy, p / 64);
    let c = sprite_col(vx, p % 64);
    if r < n && c < 8 {
        row_bit(s.memory[s.i + r], c)
    } else {
        0
    }
}

/// The display after XOR-ing an `n`-row sprite from memory at I onto it at (vx, vy).
pub open spec fn drawn_display(s: CpuState, vx: u8, vy: u8, n: u8) -> Seq<u8> {
    Seq::new(2048, |p: int| s.display[p] ^ sprite_bit(s, vx, vy, n, p))
}

/// Whether drawing the sprite turns any lit pixel off.
pub open spec fn collides(s: CpuState, vx: u8, vy: u8, n: u8) -> bool {
    exists|p: int| 0 <= p < 2048 && #[trigger] (sprite_bit(s, vx, vy, n, p) & s.display[p]) == 1
}

// ----- instruction semantics -----

/// 00E0: clear the display.
pub open spec fn clear_spec(s: CpuState) -> CpuState {
    advance(CpuState { display: Seq::new(2048, |p: int| 0u8), draw_flag: true, ..s })
}

/// 00EE: return to the address on top of the stack.
pub open spec fn return_spec(s: CpuState) -> Result<CpuState, Fault> {
    if s.sp == 0 || s.sp > 16 {
        Err(Fault::StackUnderflow)
    } else {
        Ok(CpuState { sp: (s.sp - 1) as u16, pc: s.stack[s.sp - 1], ..s })
    }
}

/// 2NNN: push the address of the next instruction and jump to NNN.
pub open spec fn call_spec(s: CpuState, nnn: u16) -> Result<CpuState, Fault> {
    if s.sp >= 16 {
        Err(Fault::StackOverflow)
    } else {
        Ok(
            CpuState {
                stack: s.stack.update(s.sp as int, (s.pc + 2) as u16),
                sp: (s.sp + 1) as u16,
                pc: nnn,
                ..s
            },
        )
    }
}

/// 7XKK: Vx := Vx + KK wrapping, VF := carry.
pub open spec fn add_imm_spec(s: CpuState, x: u8, kk: u8) -> CpuState {
    let vx = s.v[x as int];
    advance(set_flag_then_reg(s, x as int, vx + kk > 255, ((vx + kk) % 256) as u8))
}

/// 8XY_: the register-to-register operations, selected by the last nibble.
pub open spec fn alu_spec(s: CpuState, op: u16) -> Result<CpuState, Fault> {
    let x = field_x(op) as int;
    let vx = s.v[x];
    let vy = s.v[field_y(op) as int];
    let n = field_n(op);
    if n == 0 {
        Ok(advance(set_reg(s, x, vy)))
    } else if n == 1 {
        Ok(advance(set_reg(s, x, vx | vy)))
    } else if n == 2 {
        Ok(advance(set_reg(s, x, vx & vy)))
    } else if n == 3 {
        Ok(advance(set_reg(s, x, vx ^ vy)))
    } else if n == 4 {
        Ok(advance(set_flag_then_reg(s, x, vx + vy > 255, ((vx + vy) % 256) as u8)))
    } else if n == 5 {
        Ok(advance(set_flag_then_reg(s, x, vx > vy, ((vx - vy + 256) % 256) as u8)))
    } else if n == 6 {
        Ok(advance(set_flag_then_reg(s, x, vx % 2 == 1, (vx / 2) as u8)))
    } else if n == 7 {
        Ok(advance(set_flag_then_reg(s, x, vy > vx, ((vy - vx + 256) % 256) as u8)))
    } else if n == 0xE {
        Ok(advance(set_flag_then_reg(s, x, vx >= 128, ((vx * 2) % 256) as u8)))
    } else {
        Err(Fault::InvalidOpcode(op))
    }
}

/// DXYN: draw an N-row sprite from memory at I at (Vx, Vy); VF := collision.
pub open spec fn draw_spec(s: CpuState, x: u8, y: u8, n: u8) -> Result<CpuState, Fault> {
    let vx = s.v[x as int];
    let vy = s.v[y as int];
    if s.i + n > 4096 {
        Err(Fault::MemoryOutOfRange)
    } else {
        Ok(
            advance(
                CpuState {
                    v: s.v.update(15, if collides(s, vx, vy, n) { 1u8 } else { 0u8 }),
                    display: drawn_display(s, vx, vy, n),
                    draw_flag: true,
                    ..s
                },
            ),
        )
    }
}

/// EX9E and EXA1: skip when key Vx is pressed (or not pressed).
pub open spec fn key_skip_spec(s: CpuState, x: u8, when_pressed: bool) -> Result<CpuState, Fault> {
    let key = s.v[x as int];
    if key >= 16 {
        Err(Fault::InvalidKey(key))
    } else {
        Ok(skip_if(s, s.keypad[key as int] == when_pressed))
    }
}

/// FX0A: with a key pressed, Vx := the lowest pressed key and move on;
/// with none, stay on this instruction so that the next cycle waits again.
pub open spec fn wait_key_spec(s: CpuState, x: u8) -> CpuState {
    match first_pressed(s.keypad) {
        Some(k) => advance(set_reg(s, x as int, k)),
        None => s,
    }
}

/// FX33: the decimal digits of Vx at I, I+1, I+2.
pub open spec fn bcd_spec(s: CpuState, x: u8) -> Result<CpuState, Fault> {
    let vx = s.v[x as int];
    if s.i + 2 >= 4096 {
        Err(Fault::MemoryOutOfRange)
    } else {
        Ok(
            advance(
                CpuState {
                    memory: s.memory.update(s.i as int, vx / 100).update(
                        s.i + 1,
                        (vx % 100) / 10,
                    ).update(s.i + 2, vx % 10),
                    ..s
                },
            ),
        )
    }
}

/// FX55: memory[I + k] := Vk for k in 0..=X.
pub open spec fn store_regs_spec(s: CpuState, x: u8) -> Result<CpuState, Fault> {
    if s.i + x >= 4096 {
        Err(Fault::MemoryOutOfRange)
    } else {
        Ok(
            advance(
                CpuState {
                    memory: Seq::new(
                        4096,
                        |a: int|
                            if s.i <= a <= s.i + x {
                                s.v[a - s.i]
                            } else {
                                s.memory[a]
                            },
                    ),
                    ..s
                },
            ),
        )
    }
}

/// FX65: Vk := memory[I + k] for k in 0..=X.
pub open spec fn load_regs_spec(s: CpuState, x: u8) -> Result<CpuState, Fault> {
    if s.i + x >= 4096 {
        Err(Fault::MemoryOutOfRange)
    } else {
        Ok(
            advance(
                CpuState {
                    v: Seq::new(16, |k: int| if k <= x { s.memory[s.i + k] } else { s.v[k] }),
                    ..s
                },
            ),
        )
    }
}

/// FX__: timers, key wait, index arithmetic and memory transfers.
pub open spec fn misc_spec(s: CpuState, op: u16) -> Result<CpuState, Fault> {
    let x = field_x(op);
    let vx = s.v[x as int];
    let kk = field_kk(op);
    if kk == 0x07 {
        Ok(advance(set_reg(s, x as int, s.delay_timer)))
    } else if kk == 0x0A {
        Ok(wait_key_spec(s, x))
    } else if kk == 0x15 {
        Ok(advance(CpuState { delay_timer: vx, ..s }))
    } else if kk == 0x18 {
        Ok(advance(CpuState { sound_timer: vx, ..s }))
    } else if kk == 0x1E {
        Ok(advance(CpuState { i: ((s.i + vx) % 65536) as u16, ..s }))
    } else if kk == 0x29 {
        Ok(advance(CpuState { i: (vx * 5) as u16, ..s }))
    } else if kk == 0x33 {
        bcd_spec(s, x)
    } else if kk == 0x55 {
        store_regs_spec(s, x)
    } else if kk == 0x65 {
        load_regs_spec(s, x)
    } else {
        Err(Fault::InvalidOpcode(op))
    }
}

/// What executing instruction `op` does; `random` is the byte that CXKK masks.
pub open spec fn execute_spec(s: CpuState, op: u16, random: u8) -> Result<CpuState, Fault> {
    let f = family(op);
    let x = field_x(op);
    let y = field_y(op);
    let n = field_n(op);
    let nnn = field_nnn(op);
    let kk = field_kk(op);
    let vx = s.v[x as int];
    let vy = s.v[y as int];
    if op == 0x00E0 {
        Ok(clear_spec(s))
    } else if op == 0x00EE {
        return_spec(s)
    } else if f == 0x1 {
        Ok(CpuState { pc: nnn, ..s })
    } else if f == 0x2 {
        call_spec(s, nnn)
    } else if f == 0x3 {
        Ok(skip_if(s, vx == kk))
    } else if f == 0x4 {
        Ok(skip_if(s, vx != kk))
    } else if f == 0x5 && n == 0 {
        Ok(skip_if(s, vx == vy))
    } else if f == 0x6 {
        Ok(advance(set_reg(s, x as int, kk)))
    } else if f == 0x7 {
        Ok(add_imm_spec(s, x, kk))
    } else if f == 0x8 {
        alu_spec(s, op)
    } else if f == 0x9 && n == 0 {
        Ok(skip_if(s, vx != vy))
    } else if f == 0xA {
        Ok(advance(CpuState { i: nnn, ..s }))
    } else if f == 0xB {
        Ok(CpuState { pc: (s.v[0] + nnn) as u16, ..s })
    } else if f == 0xC {
        Ok(advance(set_reg(s, x as int, random & kk)))
    } else if f == 0xD {
        draw_spec(s, x, y, n)
    } else if f == 0xE && kk == 0x9E {
        key_skip_spec(s, x, true)
    } else if f == 0xE && kk == 0xA1 {
        key_skip_spec(s, x, false)
    } else if f == 0xF {
        misc_spec(s, op)
    } else {
        Err(Fault::InvalidOpcode(op))
    }
}

/// The state with `program` copied into memory from 0x200 on.
pub open spec fn loaded(s: CpuState, program: Seq<u8>) -> CpuState {
    CpuState {
        memory: Seq::new(
            4096,
            |a: int|
                if 0x200 <= a < 0x200 + program.len() {
                    program[a - 0x200]
                } else {
                    s.memory[a]
                },
        ),
        ..s
    }
}

// ----- the cycle -----

/// Both timers count down by one, stopping at zero.
pub open spec fn tick(s: CpuState) -> CpuState {
    CpuState {
        delay_timer: (if s.delay_timer > 0 { s.delay_timer - 1 } else { 0 }) as u8,
        sound_timer: (if s.sound_timer > 0 { s.sound_timer - 1 } else { 0 }) as u8,
        ..s
    }
}

/// The keypad snapshot taken and the redraw flag lowered at the start of a cycle.
pub open spec fn refresh(s: CpuState, keys: Seq<bool>) -> CpuState {
    CpuState { keypad: keys, draw_flag: false, ..s }
}

/// The big-endian instruction word at PC.
pub open spec fn fetch(s: CpuState) -> u16 {
    (s.memory[s.pc as int] * 256 + s.memory[s.pc + 1]) as u16
}

/// One cycle: refresh the keypad, fetch, execute, then tick the timers. The
/// result is whether the sound timer ran out on this cycle, or the fault.
pub open spec fn cycle_spec(s: CpuState, keys: Seq<bool>, random: u8) -> (CpuState, Result<
    bool,
    Fault,
>) {
    let s0 = refresh(s, keys);
    if s0.pc >= 4095 {
        (s0, Err(Fault::MemoryOutOfRange))
    } else {
        match execute_spec(s0, fetch(s0), random) {
            Ok(s1) => (tick(s1), Ok(s1.sound_timer == 1)),
            Err(e) => (s0, Err(e)),
        }
    }
}

} // verus!
