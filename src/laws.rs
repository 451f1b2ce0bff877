//! Properties of the instruction semantics that span several instructions or
//! hold for all operands, proved over the model.

use vstd::prelude::*;
use crate::machine::{
    cycle_spec, execute_spec, family, fetch, field_kk, field_n, field_nnn, field_x, field_y,
    first_pressed, refresh, row_bit, sprite_bit, well_sized, CpuState, Fault,
};

verus! {

/// The instruction word with family `f` and fields X, Y, N.
pub open spec fn word(f: u16, x: u8, y: u8, n: u8) -> u16 {
    (f * 4096 + x * 256 + y * 16 + n) as u16
}

proof fn lemma_word_fields(f: u16, x: u8, y: u8, n: u8)
    requires
        f < 16,
        x < 16,
        y < 16,
        n < 16,
    ensures
        family(word(f, x, y, n)) == f,
        field_x(word(f, x, y, n)) == x,
        field_y(word(f, x, y, n)) == y,
        field_n(word(f, x, y, n)) == n,
        field_kk(word(f, x, y, n)) == y * 16 + n,
        field_nnn(word(f, x, y, n)) == x * 256 + y * 16 + n,
{
    let w = f * 4096 + x * 256 + y * 16 + n;
    assert(0 <= w < 65536) by (nonlinear_arith)
        requires
            w == f * 4096 + x * 256 + y * 16 + n,
            f < 16,
            x < 16,
            y < 16,
            n < 16,
    ;
    assert(w / 4096 == f && (w / 256) % 16 == x && (w / 16) % 16 == y && w % 16 == n && w % 256
        == y * 16 + n && w % 4096 == x * 256 + y * 16 + n) by (nonlinear_arith)
        requires
            w == f * 4096 + x * 256 + y * 16 + n,
            0 <= f < 16,
            0 <= x < 16,
            0 <= y < 16,
            0 <= n < 16,
    ;
}

/// Adding a literal to a register other than VF (7XKK) leaves the sum modulo 256
/// in the register and sets VF to 1 exactly when the sum exceeds 255.
pub proof fn lemma_add_immediate_wraps_with_carry(s: CpuState, x: u8, kk: u8, random: u8)
    requires
        well_sized(s),
        x < 15,
        s.pc < 4095,
    ensures
        ({
            let r = execute_spec(s, word(7, x, kk / 16, kk % 16), random);
            &&& r is Ok
            &&& r->Ok_0.v[x as int] == (s.v[x as int] + kk) % 256
            &&& r->Ok_0.v[15] == (if s.v[x as int] + kk > 255 { 1u8 } else { 0u8 })
            &&& r->Ok_0.pc == s.pc + 2
        }),
{
    lemma_word_fields(7, x, kk / 16, kk % 16);
}

/// Subtracting a register from another register other than VF (8XY5) leaves the
/// difference modulo 256 and sets VF to 1 exactly when no borrow occurs, that is
/// when Vx > Vy.
pub proof fn lemma_subtract_wraps_with_no_borrow_flag(s: CpuState, x: u8, y: u8, random: u8)
    requires
        well_sized(s),
        x < 15,
        y < 16,
        s.pc < 4095,
    ensures
        ({
            let r = execute_spec(s, word(8, x, y, 5), random);
            &&& r is Ok
            &&& r->Ok_0.v[x as int] == (s.v[x as int] - s.v[y as int] + 256) % 256
            &&& r->Ok_0.v[15] == (if s.v[x as int] > s.v[y as int] { 1u8 } else { 0u8 })
            &&& r->Ok_0.pc == s.pc + 2
        }),
{
    lemma_word_fields(8, x, y, 5);
}

/// A cycle that runs 00E0 leaves every pixel dark and the redraw flag raised.
pub proof fn lemma_clear_screen(s: CpuState, keys: Seq<bool>, random: u8)
    requires
        well_sized(s),
        keys.len() == 16,
        s.pc < 4095,
        fetch(s) == 0x00E0,
    ensures
        ({
            let (t, r) = cycle_spec(s, keys, random);
            &&& r is Ok
            &&& t.draw_flag
            &&& forall|p: int| 0 <= p < 2048 ==> t.display[p] == 0
        }),
{
    assert(fetch(refresh(s, keys)) == fetch(s));
}

/// A call (2NNN) followed by a return (00EE) at the called address resumes at the
/// instruction after the call, with the stack as deep as before.
pub proof fn lemma_call_then_return(s: CpuState, nnn: u16, random: u8)
    requires
        well_sized(s),
        nnn < 4096,
        s.sp < 16,
        s.pc < 4095,
    ensures
        ({
            let r1 = execute_spec(s, word(2, (nnn / 256) as u8, ((nnn / 16) % 16) as u8, (nnn % 16) as u8), random);
            &&& r1 is Ok
            &&& r1->Ok_0.pc == nnn
            &&& ({
                let r2 = execute_spec(r1->Ok_0, 0x00EE, random);
                &&& r2 is Ok
                &&& r2->Ok_0.pc == s.pc + 2
                &&& r2->Ok_0.sp == s.sp
            })
        }),
{
    lemma_word_fields(2, (nnn / 256) as u8, ((nnn / 16) % 16) as u8, (nnn % 16) as u8);
    let op = word(2, (nnn / 256) as u8, ((nnn / 16) % 16) as u8, (nnn % 16) as u8);
    assert(op != 0x00E0 && op != 0x00EE);
}


/// FX15 with Vx = 1 sets the delay timer, which runs out on the tick of that same
/// cycle, so an FX07 on the next cycle reads 0.
pub proof fn lemma_delay_timer_runs_out(
    s: CpuState,
    x: u8,
    y: u8,
    keys1: Seq<bool>,
    keys2: Seq<bool>,
    random1: u8,
    random2: u8,
)
    requires
        well_sized(s),
        keys1.len() == 16,
        keys2.len() == 16,
        x < 16,
        y < 16,
        s.pc < 4093,
        s.v[x as int] == 1,
        fetch(s) == word(0xF, x, 1, 5),
        fetch(CpuState { pc: (s.pc + 2) as u16, ..s }) == word(0xF, y, 0, 7),
    ensures
        ({
            let (t1, r1) = cycle_spec(s, keys1, random1);
            let (t2, r2) = cycle_spec(t1, keys2, random2);
            &&& r1 is Ok
            &&& t1.delay_timer == 0
            &&& r2 is Ok
            &&& t2.v[y as int] == 0
            &&& t2.delay_timer == 0
        }),
{
    lemma_word_fields(0xF, x, 1, 5);
    lemma_word_fields(0xF, y, 0, 7);
    assert(fetch(refresh(s, keys1)) == fetch(s));
    let (t1, r1) = cycle_spec(s, keys1, random1);
    assert(fetch(refresh(t1, keys2)) == fetch(CpuState { pc: (s.pc + 2) as u16, ..s }));
}

/// Only FX18 writes the sound timer.
proof fn lemma_sound_untouched(s: CpuState, op: u16, random: u8)
    requires
        well_sized(s),
        !(family(op) == 0xF && field_kk(op) == 0x18),
    ensures
        execute_spec(s, op, random) is Ok ==> execute_spec(s, op, random)->Ok_0.sound_timer
            == s.sound_timer,
{
}

/// On a cycle whose instruction does not set the sound timer (FX18): a sound timer
/// at 1 signals expiry and reaches 0, and a sound timer at 0 stays at 0 without a
/// signal. So a timer set to 1 signals exactly once and never goes below zero.
pub proof fn lemma_sound_timer_signals_once(s: CpuState, keys: Seq<bool>, random: u8)
    requires
        well_sized(s),
        keys.len() == 16,
        s.sound_timer <= 1,
        !(family(fetch(s)) == 0xF && field_kk(fetch(s)) == 0x18),
    ensures
        ({
            let (t, r) = cycle_spec(s, keys, random);
            r is Ok ==> (t.sound_timer == 0 && r == Ok::<bool, Fault>(s.sound_timer == 1))
        }),
{
    assert(fetch(refresh(s, keys)) == fetch(s));
    lemma_sound_untouched(refresh(s, keys), fetch(s), random);
}

/// The lowest pressed key: it is pressed and no lower key is; there is none
/// exactly when no key is pressed.
pub proof fn lemma_first_pressed(keys: Seq<bool>)
    requires
        keys.len() == 16,
    ensures
        match first_pressed(keys) {
            Some(k) => k < 16 && keys[k as int] && forall|j: int| 0 <= j < k ==> !keys[j],
            None => forall|j: int| 0 <= j < 16 ==> !keys[j],
        },
{
    lemma_first_pressed_from(keys, 0);
}

proof fn lemma_first_pressed_from(keys: Seq<bool>, from: int)
    requires
        keys.len() == 16,
        0 <= from <= 16,
    ensures
        match crate::machine::first_pressed_from(keys, from) {
            Some(k) => from <= k < 16 && keys[k as int] && forall|j: int| from <= j < k ==> !keys[j],
            None => forall|j: int| from <= j < 16 ==> !keys[j],
        },
    decreases 16 - from,
{
    if from < 16 && !keys[from] {
        lemma_first_pressed_from(keys, from + 1);
    }
}

/// A cycle that runs FX0A with no key pressed leaves PC and the registers as they
/// were, so the next cycle waits again; with a key pressed it moves PC on by one
/// instruction and stores the lowest pressed key in Vx.
pub proof fn lemma_wait_for_key(s: CpuState, x: u8, keys: Seq<bool>, random: u8)
    requires
        well_sized(s),
        keys.len() == 16,
        x < 16,
        s.pc < 4095,
        fetch(s) == word(0xF, x, 0, 0xA),
    ensures
        ({
            let (t, r) = cycle_spec(s, keys, random);
            &&& r is Ok
            &&& (forall|j: int| 0 <= j < 16 ==> !keys[j]) ==> t.pc == s.pc && t.v == s.v
            &&& forall|k: int|
                0 <= k < 16 && keys[k] && (forall|j: int| 0 <= j < k ==> !keys[j]) ==> t.pc == s.pc
                    + 2 && t.v[x as int] == k
        }),
{
    lemma_word_fields(0xF, x, 0, 0xA);
    assert(fetch(refresh(s, keys)) == fetch(s));
    lemma_first_pressed(keys);
}

/// Storing V0..=VX at I (FX55) and loading them back from I (FX65), whatever the
/// registers and PC hold in between, restores V0..=VX.
pub proof fn lemma_store_load_round_trip(
    s: CpuState,
    x: u8,
    between: Seq<u8>,
    pc: u16,
    random: u8,
)
    requires
        well_sized(s),
        x < 16,
        s.pc < 4095,
        pc < 4095,
        s.i + x < 4096,
        between.len() == 16,
    ensures
        ({
            let r1 = execute_spec(s, word(0xF, x, 5, 5), random);
            &&& r1 is Ok
            &&& ({
                let s2 = CpuState { v: between, pc, ..r1->Ok_0 };
                let r2 = execute_spec(s2, word(0xF, x, 6, 5), random);
                &&& r2 is Ok
                &&& forall|k: int| 0 <= k <= x ==> r2->Ok_0.v[k] == s.v[k]
            })
        }),
{
    lemma_word_fields(0xF, x, 5, 5);
    lemma_word_fields(0xF, x, 6, 5);
}


/// Drawing the same sprite twice at the same place (DXYN with X and Y other than
/// VF) restores the display. On a dark display the first draw reports no
/// collision, and the second reports one exactly when the sprite has a lit pixel.
pub proof fn lemma_redraw_erases_sprite(s: CpuState, x: u8, y: u8, n: u8, random: u8)
    requires
        well_sized(s),
        x < 15,
        y < 15,
        n < 16,
        s.i + n <= 4096,
        s.pc < 4093,
    ensures
        ({
            let op = word(0xD, x, y, n);
            let r1 = execute_spec(s, op, random);
            &&& r1 is Ok
            &&& ({
                let r2 = execute_spec(r1->Ok_0, op, random);
                &&& r2 is Ok
                &&& r2->Ok_0.display == s.display
                &&& (forall|p: int| 0 <= p < 2048 ==> s.display[p] == 0) ==> {
                    &&& r1->Ok_0.v[15] == 0
                    &&& (r2->Ok_0.v[15] == 1 <==> exists|p: int|
                        0 <= p < 2048 && #[trigger] sprite_bit(s, s.v[x as int], s.v[y as int], n, p)
                            == 1)
                }
            })
        }),
{
    lemma_word_fields(0xD, x, y, n);
    let op = word(0xD, x, y, n);
    let vx = s.v[x as int];
    let vy = s.v[y as int];
    let s1 = execute_spec(s, op, random)->Ok_0;
    let s2 = execute_spec(s1, op, random)->Ok_0;
    assert(s1.v[x as int] == vx && s1.v[y as int] == vy);
    assert forall|p: int| 0 <= p < 2048 implies #[trigger] sprite_bit(s1, vx, vy, n, p)
        == sprite_bit(s, vx, vy, n, p) && sprite_bit(s, vx, vy, n, p) <= 1 by {
        let r = crate::machine::sprite_row(vy, p / 64);
        let c = crate::machine::sprite_col(vx, p % 64);
        if r < n && c < 8 {
            let b = s.memory[s.i + r];
            let sh = (7 - c) as u8;
            assert((b >> sh) & 1 <= 1) by (bit_vector);
            assert(row_bit(b, c) <= 1);
        }
    }
    assert forall|p: int| 0 <= p < 2048 implies s2.display[p] == s.display[p] by {
        let d = s.display[p];
        let b = sprite_bit(s, vx, vy, n, p);
        assert((d ^ b) ^ b == d) by (bit_vector);
    }
    assert(s2.display =~= s.display);
    if forall|p: int| 0 <= p < 2048 ==> s.display[p] == 0 {
        assert forall|p: int| 0 <= p < 2048 implies (sprite_bit(s, vx, vy, n, p) & s.display[p])
            != 1 by {
            let b = sprite_bit(s, vx, vy, n, p);
            assert(b & 0 == 0) by (bit_vector);
        }
        assert forall|p: int| 0 <= p < 2048 implies ((sprite_bit(s1, vx, vy, n, p)
            & s1.display[p]) == 1) == (sprite_bit(s, vx, vy, n, p) == 1) by {
            let b = sprite_bit(s, vx, vy, n, p);
            assert(b <= 1 ==> (b & (0 ^ b)) == b) by (bit_vector);
        }
        if s2.v[15] == 1 {
            let w = choose|p: int|
                0 <= p < 2048 && #[trigger] (sprite_bit(s1, vx, vy, n, p) & s1.display[p]) == 1;
            assert(sprite_bit(s, vx, vy, n, w) == 1);
        }
        if exists|p: int| 0 <= p < 2048 && #[trigger] sprite_bit(s, vx, vy, n, p) == 1 {
            let w = choose|p: int| 0 <= p < 2048 && #[trigger] sprite_bit(s, vx, vy, n, p) == 1;
            assert((sprite_bit(s1, vx, vy, n, w) & s1.display[w]) == 1);
        }
    }
}

} // verus!
