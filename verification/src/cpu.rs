//! The fetch/decode/execute engine: sixteen 8-bit registers (register 15
//! doubles as the carry/borrow/collision flag), a 16-bit index register, a
//! 16-bit program counter, a growable stack of return addresses, and one
//! handler per opcode of the standard instruction set.
//!
//! Every handler's effect on the machine is stated as a spec function over the
//! whole CPU state, and [`CPU::exec`]'s contract composes them into the effect
//! of one full fetch/decode/dispatch step.

use vstd::prelude::*;

verus! {

use crate::display;
use crate::display::Display;
use crate::display::pixel;
use crate::memory;
use crate::memory::Mem;
use crate::memory::byte_at;
use crate::memory::mem_store;
use crate::memory::word_at;
pub use crate::timer::Timer;
use crate::timer::set_effect;

/// Width, in pixels, of the host frame that [`World::draw`] fills.
pub const WIDTH: u32 = 220;

/// Height, in pixels, of the host frame that [`World::draw`] fills.
pub const HEIGHT: u32 = 140;

pub struct CPU {
    pub mem: Mem, /* Memory for our cpu */
    pub display: Display, /* Repr of display */
    pub stack: Vec<u16>, /* Program stack */
    pub pc: u16, /* Program counter */
    pub regs: [u8; 16], /* Program variable registers */
    pub ireg: u16, /* Index register */
    pub sound_timer: Timer, /* Sound timer */
    pub delay_timer: Timer, /* Delay timer */
}

/// A struct that breaks the two bytes of the current instruction into the
/// fields the handlers dispatch on.
#[derive(Debug, PartialEq)]
pub struct Instruction {
    pub inst: [u8; 2], /* The actual instruction */
    pub nib1: u8, /* x... */
    pub nib2: u8, /* .x.. */
    pub nib3: u8, /* ..x. */
    pub nib4: u8, /* ...x */
    pub nib234: u16, /* Last 3 nibbles => .xxx */
    pub byte: u16, /* Instruction in 16 bit form */
}

/// Representation of the application state; its one job is to paint the
/// machine's display into a host frame buffer.
pub struct World {}

/// High nibble of the first instruction byte: the operation class.
pub open spec fn spec_nib1(b0: u8) -> u8 {
    b0 >> 4
}

/// Low nibble of the first instruction byte: the X register index.
pub open spec fn spec_nib2(b0: u8) -> u8 {
    b0 & 0x0F
}

/// High nibble of the second instruction byte: the Y register index.
pub open spec fn spec_nib3(b1: u8) -> u8 {
    b1 >> 4
}

/// Low nibble of the second instruction byte: the sub-opcode.
pub open spec fn spec_nib4(b1: u8) -> u8 {
    b1 & 0x0F
}

/// The combined 12-bit address/immediate field.
pub open spec fn spec_nib234(b0: u8, b1: u8) -> u16 {
    (((b0 & 0x0F) as u16) << 8) | (b1 as u16)
}

/// The two instruction bytes as one 16-bit value.
pub open spec fn spec_byte(b0: u8, b1: u8) -> u16 {
    ((b0 as u16) << 8) | (b1 as u16)
}

/// `x` reduced into the 16-bit range: the program counter and the index
/// register wrap around. Meant for `x` within one step of that range.
pub open spec fn wrap16(x: int) -> u16 {
    if 0 <= x < 0x10000 {
        x as u16
    } else if x < 0 {
        (x + 0x10000) as u16
    } else {
        (x - 0x10000) as u16
    }
}

/// 8-bit addition that wraps around, as the add instructions perform it.
pub open spec fn add_wrap(a: u8, b: u8) -> u8 {
    ((a + b) % 256) as u8
}

/// 8-bit subtraction that wraps around, as the subtract instructions perform
/// it.
pub open spec fn sub_wrap(a: u8, b: u8) -> u8 {
    if a >= b {
        (a - b) as u8
    } else {
        (a + 256 - b) as u8
    }
}

impl Instruction {
    /// The fields are the decoded view of the two bytes `b0`, `b1`.
    pub open spec fn decodes(&self, b0: u8, b1: u8) -> bool {
        &&& self.inst@ == seq![b0, b1]
        &&& self.nib1 == spec_nib1(b0)
        &&& self.nib2 == spec_nib2(b0)
        &&& self.nib3 == spec_nib3(b1)
        &&& self.nib4 == spec_nib4(b1)
        &&& self.nib234 == spec_nib234(b0, b1)
        &&& self.byte == spec_byte(b0, b1)
    }

    /// The fields are the decoded view of the instruction's own two bytes; in
    /// particular every nibble field is within its 4-bit (or 12-bit) range.
    pub open spec fn wf(&self) -> bool {
        &&& self.decodes(self.inst@[0], self.inst@[1])
        &&& self.nib1 <= 0x0F
        &&& self.nib2 <= 0x0F
        &&& self.nib3 <= 0x0F
        &&& self.nib4 <= 0x0F
        &&& self.nib234 <= 0x0FFF
    }
}

/// Make a cpu struct wrapping `mem`: program counter at the program start,
/// registers, index register and stack cleared, display dark, timers disarmed.
pub fn make_cpu(mem: Mem) -> (c: CPU)
    ensures
        c.mem == mem,
        c.pc == memory::_PROG_START as u16,
        forall|i: int| 0 <= i < 16 ==> c.regs@[i] == 0,
        c.ireg == 0,
        c.stack@ == Seq::<u16>::empty(),
        forall|r: int, c2: int| 0 <= r < 32 && 0 <= c2 < 64 ==> !pixel(c.display, r, c2),
        c.sound_timer.curr_second == 0 && c.sound_timer.base_value == 0 && c.sound_timer.value
            == 0,
        c.delay_timer.curr_second == 0 && c.delay_timer.base_value == 0 && c.delay_timer.value
            == 0,
{
    let dis: Display = display::make_display();
    let stack: Vec<u16> = Vec::new();

    CPU {
        mem: mem,
        display: dis,
        stack: stack,
        pc: 0x200,
        regs: [0x0; 16],
        ireg: 0x0,
        sound_timer: Timer::new(),
        delay_timer: Timer::new(),
    }
}

/// Make an instruction out of the two bytes.
pub fn make_instruction(data: [u8; 2]) -> (out: Instruction)
    ensures
        out.decodes(data@[0], data@[1]),
        out.wf(),
{
    let nib1: u8 = data[0] >> 4;
    let nib2: u8 = data[0] & 0x0F;
    let nib3: u8 = data[1] >> 4;
    let nib4: u8 = data[1] & 0x0F;
    let byte: u16 = (data[0] as u16) << 8 | data[1] as u16;
    let nib234: u16 = (nib2 as u16) << 8 | data[1] as u16;
    let out = Instruction {
        inst: data,
        nib1: nib1,
        nib2: nib2,
        nib3: nib3,
        nib4: nib4,
        nib234: nib234,
        byte: byte,
    };
    proof {
        let b0 = data@[0];
        let b1 = data@[1];
        assert(data@ =~= seq![b0, b1]);
        assert((b0 >> 4) <= 0x0F && (b0 & 0x0F) <= 0x0F && (b1 >> 4) <= 0x0F && (b1 & 0x0F)
            <= 0x0F) by (bit_vector);
        assert((((b0 & 0x0F) as u16) << 8) | (b1 as u16) <= 0x0FFF) by (bit_vector);
    }
    out
}

/* Per-instruction effects on the machine state. Each spec function pins the
 * new value of every field: the struct-update clause says which fields stay,
 * the remaining clauses say where the named fields move. */

/// `00E0`: every pixel dark, everything else untouched.
pub open spec fn clear_effect(pre: CPU, post: CPU) -> bool {
    &&& post == (CPU { display: post.display, ..pre })
    &&& forall|r: int, c: int| 0 <= r < 32 && 0 <= c < 64 ==> !pixel(post.display, r, c)
}

/// `00EE`: pop the stack into the program counter; a no-op on an empty stack.
pub open spec fn ret_effect(pre: CPU, post: CPU) -> bool {
    &&& post == (CPU { pc: post.pc, stack: post.stack, ..pre })
    &&& if pre.stack@.len() > 0 {
        post.pc == pre.stack@.last() && post.stack@ == pre.stack@.drop_last()
    } else {
        post.pc == pre.pc && post.stack@ == pre.stack@
    }
}

/// `1NNN` (and the tail of `2NNN`/`BNNN`): the program counter moves to
/// `addr`, everything else untouched.
pub open spec fn jump_effect(pre: CPU, post: CPU, addr: u16) -> bool {
    &&& post == (CPU { pc: post.pc, ..pre })
    &&& post.pc == addr
}

/// `2NNN`: the current program counter is pushed, then the program counter
/// moves to `addr`.
pub open spec fn call_effect(pre: CPU, post: CPU, addr: u16) -> bool {
    &&& post == (CPU { pc: post.pc, stack: post.stack, ..pre })
    &&& post.pc == addr
    &&& post.stack@ == pre.stack@.push(pre.pc)
}

/// Whether a skip instruction takes its skip: an equality test when
/// `check_eq`, an inequality test otherwise.
pub open spec fn skip_taken(v1: u8, v2: u8, check_eq: bool) -> bool {
    if check_eq {
        v1 == v2
    } else {
        v1 != v2
    }
}

/// `3XNN`/`4XNN`/`5XY0`/`9XY0`/`EX9E`/`EXA1`: the program counter advances by
/// one extra instruction when the comparison matches.
pub open spec fn skip_effect(pre: CPU, post: CPU, v1: u8, v2: u8, check_eq: bool) -> bool {
    &&& post == (CPU { pc: post.pc, ..pre })
    &&& post.pc == if skip_taken(v1, v2, check_eq) {
        wrap16(pre.pc + 2)
    } else {
        pre.pc
    }
}

/// The many opcodes whose whole effect is one register taking the value `v`:
/// `6XNN`, `7XNN`, `8XY0`..`8XY3`, `FX07`, and the key branch of `FX0A`.
pub open spec fn reg_write_effect(pre: CPU, post: CPU, x: int, v: u8) -> bool {
    &&& post == (CPU { regs: post.regs, ..pre })
    &&& post.regs@ == pre.regs@.update(x, v)
}

/// `8XY4`: register X takes the wrapped sum, and the flag register records
/// whether the true sum overflowed a byte. The flag is written first, so with
/// X = 15 the sum wins.
pub open spec fn reg_add_effect(pre: CPU, post: CPU, x: int, y: int) -> bool {
    let sum = pre.regs@[x] + pre.regs@[y];
    let flag: u8 = if sum > 255 {
        1u8
    } else {
        0u8
    };
    &&& post == (CPU { regs: post.regs, ..pre })
    &&& post.regs@ == pre.regs@.update(15, flag).update(x, (sum % 256) as u8)
}

/// `8XY5`/`8XY7`: the register named by `dst` takes regs[r1] - regs[r2]
/// wrapped, and the flag register records "no borrow" (regs[r1] >= regs[r2]).
/// The flag is written first, so a destination of 15 wins.
pub open spec fn reg_sub_effect(pre: CPU, post: CPU, r1: int, r2: int, set_reg1: bool) -> bool {
    let a = pre.regs@[r1];
    let b = pre.regs@[r2];
    let flag: u8 = if a >= b {
        1u8
    } else {
        0u8
    };
    let dst = if set_reg1 {
        r1
    } else {
        r2
    };
    &&& post == (CPU { regs: post.regs, ..pre })
    &&& post.regs@ == pre.regs@.update(15, flag).update(dst, sub_wrap(a, b))
}

/// `8XY6`/`8XYE`: the flag register takes the bit shifted out (the low bit for
/// a right shift, the high bit for a left shift), then register X shifts by
/// one. The flag is written first, so with X = 15 the shift acts on it.
pub open spec fn shift_effect(pre: CPU, post: CPU, x: int, left_shift: bool) -> bool {
    let flag: u8 = if left_shift {
        (pre.regs@[x] & 0x80) >> 7
    } else {
        pre.regs@[x] & 0x01
    };
    let r1 = pre.regs@.update(15, flag);
    let shifted: u8 = if left_shift {
        r1[x] << 1
    } else {
        r1[x] >> 1
    };
    &&& post == (CPU { regs: post.regs, ..pre })
    &&& post.regs@ == r1.update(x, shifted)
}

/// `ANNN`: the index register takes `addr`, everything else untouched.
pub open spec fn set_ireg_effect(pre: CPU, post: CPU, addr: u16) -> bool {
    &&& post == (CPU { ireg: post.ireg, ..pre })
    &&& post.ireg == addr
}

/// `BNNN`: the program counter moves to register 0 plus `addr`.
pub open spec fn jump_offset_effect(pre: CPU, post: CPU, addr: u16) -> bool {
    &&& post == (CPU { pc: post.pc, ..pre })
    &&& post.pc == pre.regs@[0] + addr
}

/// `CXNN`: register X takes a random byte masked by the immediate. Which byte
/// came back is outside the machine's control, so the effect holds for some
/// byte.
pub open spec fn random_effect(pre: CPU, post: CPU, x: int, nn: u8) -> bool {
    &&& post == (CPU { regs: post.regs, ..pre })
    &&& exists|n: u8| post.regs@ == pre.regs@.update(x, nn & n)
}

/// `FX33`: the three decimal digits of register X's value land at the index
/// register's address (hundreds first), each through a bounds-checked write.
pub open spec fn bcd_effect(pre: CPU, post: CPU, x: int) -> bool {
    let v = pre.regs@[x];
    let a = pre.ireg as int;
    &&& post == (CPU { mem: post.mem, ..pre })
    &&& post.mem.data@ == mem_store(
        mem_store(mem_store(pre.mem.data@, a, (v / 100) as u8), a + 1, ((v / 10) % 10) as u8),
        a + 2,
        (v % 10) as u8,
    )
}

/// `FX15`/`FX18`: the named timer is armed with register X's value, per the
/// timer's arming rule; nothing else moves.
pub open spec fn timer_set_effect(pre: CPU, post: CPU, x: int, is_delay: bool) -> bool {
    if is_delay {
        &&& post == (CPU { delay_timer: post.delay_timer, ..pre })
        &&& set_effect(pre.delay_timer, post.delay_timer, pre.regs@[x])
    } else {
        &&& post == (CPU { sound_timer: post.sound_timer, ..pre })
        &&& set_effect(pre.sound_timer, post.sound_timer, pre.regs@[x])
    }
}

/// `FX55`: memory holds registers 0..=X starting at the index register
/// (bounds-checked byte by byte); every other byte stays.
pub open spec fn store_effect(pre: CPU, post: CPU, x: int) -> bool {
    &&& post == (CPU { mem: post.mem, ..pre })
    &&& forall|a: int|
        0 <= a < 4096 ==> post.mem.data@[a] == (
        if pre.ireg <= a <= pre.ireg + x && 1 <= a <= 4095 {
            pre.regs@[a - pre.ireg]
        } else {
            pre.mem.data@[a]
        })
}

/// `FX65`: registers 0..=X hold the bytes at the index register (a read out
/// of range yields 0); higher registers stay.
pub open spec fn load_effect(pre: CPU, post: CPU, x: int) -> bool {
    &&& post == (CPU { regs: post.regs, ..pre })
    &&& forall|j: int|
        0 <= j < 16 ==> post.regs@[j] == (
        if j <= x {
            byte_at(pre.mem.data@, pre.ireg + j)
        } else {
            pre.regs@[j]
        })
}

/// The sprite row byte `i` of a draw: read from memory at the index register
/// plus `i`, with the memory's out-of-range default of 0.
pub open spec fn sprite_row(pre: CPU, i: int) -> u8 {
    byte_at(pre.mem.data@, pre.ireg + i)
}

/// Bit `j` of a sprite row byte, most significant bit first.
pub open spec fn sprite_bit(b: u8, j: int) -> bool {
    b & (0x80u8 >> (j as u8)) != 0
}

/// Whether a draw of `n` rows whose top-left corner is `(x0, y0)` touches the
/// cell at row `r`, column `c`: the cell lies under a set sprite bit and
/// inside the screen (bits past the right or bottom edge are clipped).
pub open spec fn draw_covers(pre: CPU, x0: int, y0: int, n: int, r: int, c: int) -> bool {
    &&& y0 <= r < y0 + n
    &&& r < 32
    &&& x0 <= c < x0 + 8
    &&& c < 64
    &&& sprite_bit(sprite_row(pre, r - y0), c - x0)
}

/// Whether a draw turns off any already-lit pixel: some touched cell was lit.
pub open spec fn draw_collides(pre: CPU, x0: int, y0: int, n: int) -> bool {
    exists|r: int, c: int|
        0 <= r < 32 && 0 <= c < 64 && draw_covers(pre, x0, y0, n, r, c) && pixel(pre.display, r, c)
}

/// `DXYN`: every cell the sprite touches flips (XOR), every other cell stays,
/// and the flag register records whether any touched cell was lit before the
/// draw. The starting corner is registers X and Y modulo the screen size;
/// bits falling past the screen edge are clipped.
pub open spec fn draw_effect(pre: CPU, post: CPU, x: int, y: int, n: u8) -> bool {
    let x0 = pre.regs@[x] as int % 64;
    let y0 = pre.regs@[y] as int % 32;
    &&& post == (CPU { display: post.display, regs: post.regs, ..pre })
    &&& forall|r: int, c: int|
        0 <= r < 32 && 0 <= c < 64 ==> #[trigger] pixel(post.display, r, c) == (
        if draw_covers(pre, x0, y0, n as int, r, c) {
            !pixel(pre.display, r, c)
        } else {
            pixel(pre.display, r, c)
        })
    &&& post.regs@ == pre.regs@.update(
        15,
        if draw_collides(pre, x0, y0, n as int) {
            1u8
        } else {
            0u8
        },
    )
}

/// [`draw_covers`], cut off mid-sprite: the first `i` rows whole, and of row
/// `i` itself only the first `j` bits.
spec fn draw_covers_partial(pre: CPU, x0: int, y0: int, i: int, j: int, r: int, c: int) -> bool {
    ||| draw_covers(pre, x0, y0, i, r, c)
    ||| {
        &&& r == y0 + i
        &&& r < 32
        &&& x0 <= c < x0 + j
        &&& c < 64
        &&& sprite_bit(sprite_row(pre, i), c - x0)
    }
}

/// [`draw_collides`], cut off mid-sprite like [`draw_covers_partial`].
spec fn draw_collides_partial(pre: CPU, x0: int, y0: int, i: int, j: int) -> bool {
    exists|r: int, c: int|
        0 <= r < 32 && 0 <= c < 64 && draw_covers_partial(pre, x0, y0, i, j, r, c) && pixel(
            pre.display,
            r,
            c,
        )
}

/// `FX29`: the index register points at the glyph for the low nibble of
/// register X, five bytes per glyph from the font base.
pub open spec fn font_char_effect(pre: CPU, post: CPU, x: int) -> bool {
    &&& post == (CPU { ireg: post.ireg, ..pre })
    &&& post.ireg == memory::_FONT_START + 5 * (pre.regs@[x] & 0x0F)
}

/// `FX0A`: with the "no key" sentinel the program counter rewinds one
/// instruction (a polling wait, not a block); with a key, register X takes
/// the key code.
pub open spec fn get_key_effect(pre: CPU, post: CPU, x: int, key: u8) -> bool {
    if key == 0xf0 {
        &&& post == (CPU { pc: post.pc, ..pre })
        &&& post.pc == wrap16(pre.pc - 2)
    } else {
        reg_write_effect(pre, post, x, key)
    }
}

/// `FX1E`: the index register takes the wrapped 16-bit sum of itself and
/// register X; the flag register is set to 1 when the sum overflows 16 bits
/// or the 12-bit addressing range, and keeps its value otherwise.
pub open spec fn add_regi_effect(pre: CPU, post: CPU, x: int) -> bool {
    let sum = pre.ireg + pre.regs@[x];
    &&& post == (CPU { ireg: post.ireg, regs: post.regs, ..pre })
    &&& post.ireg == wrap16(sum)
    &&& post.regs@ == if sum > 0xFFFF || wrap16(sum) > 0x0FFF {
        pre.regs@.update(15, 1u8)
    } else {
        pre.regs@
    }
}

/// What decoding and executing one instruction with bytes `b0`, `b1` does to
/// the machine, given the key code polled for this cycle. An unrecognized bit
/// pattern leaves the machine untouched: the program counter has already
/// moved past it, so execution continues at the next instruction.
pub open spec fn decode_effect(pre: CPU, post: CPU, b0: u8, b1: u8, key: u8) -> bool {
    let op = spec_nib1(b0);
    let x = spec_nib2(b0) as int;
    let y = spec_nib3(b1) as int;
    let n4 = spec_nib4(b1);
    let nnn = spec_nib234(b0, b1);
    if op == 0 {
        if b1 == 0xE0 {
            clear_effect(pre, post)
        } else if b1 == 0xEE {
            ret_effect(pre, post)
        } else {
            post == pre
        }
    } else if op == 1 {
        jump_effect(pre, post, nnn)
    } else if op == 2 {
        call_effect(pre, post, nnn)
    } else if op == 3 {
        skip_effect(pre, post, pre.regs@[x], b1, true)
    } else if op == 4 {
        skip_effect(pre, post, pre.regs@[x], b1, false)
    } else if op == 5 {
        skip_effect(pre, post, pre.regs@[x], pre.regs@[y], true)
    } else if op == 6 {
        reg_write_effect(pre, post, x, b1)
    } else if op == 7 {
        reg_write_effect(pre, post, x, add_wrap(pre.regs@[x], b1))
    } else if op == 8 {
        if n4 == 0 {
            reg_write_effect(pre, post, x, pre.regs@[y])
        } else if n4 == 1 {
            reg_write_effect(pre, post, x, pre.regs@[x] | pre.regs@[y])
        } else if n4 == 2 {
            reg_write_effect(pre, post, x, pre.regs@[x] & pre.regs@[y])
        } else if n4 == 3 {
            reg_write_effect(pre, post, x, pre.regs@[x] ^ pre.regs@[y])
        } else if n4 == 4 {
            reg_add_effect(pre, post, x, y)
        } else if n4 == 5 {
            reg_sub_effect(pre, post, x, y, true)
        } else if n4 == 6 {
            shift_effect(pre, post, x, false)
        } else if n4 == 7 {
            reg_sub_effect(pre, post, y, x, false)
        } else if n4 == 0xE {
            shift_effect(pre, post, x, true)
        } else {
            post == pre
        }
    } else if op == 9 {
        skip_effect(pre, post, pre.regs@[x], pre.regs@[y], false)
    } else if op == 0xA {
        set_ireg_effect(pre, post, nnn)
    } else if op == 0xB {
        jump_offset_effect(pre, post, nnn)
    } else if op == 0xC {
        random_effect(pre, post, x, b1)
    } else if op == 0xD {
        draw_effect(pre, post, x, y, n4)
    } else if op == 0xE {
        if n4 == 0x1 {
            skip_effect(pre, post, pre.regs@[x], key, false)
        } else if n4 == 0xE {
            skip_effect(pre, post, pre.regs@[x], key, true)
        } else {
            post == pre
        }
    } else if op == 0xF {
        if n4 == 3 {
            bcd_effect(pre, post, x)
        } else if n4 == 5 {
            if spec_nib3(b1) == 1 {
                timer_set_effect(pre, post, x, true)
            } else if spec_nib3(b1) == 5 {
                store_effect(pre, post, x)
            } else if spec_nib3(b1) == 6 {
                load_effect(pre, post, x)
            } else {
                post == pre
            }
        } else if n4 == 7 {
            reg_write_effect(pre, post, x, pre.delay_timer.value)
        } else if n4 == 8 {
            timer_set_effect(pre, post, x, false)
        } else if n4 == 9 {
            font_char_effect(pre, post, x)
        } else if n4 == 0xA {
            get_key_effect(pre, post, x, key)
        } else if n4 == 0xE {
            add_regi_effect(pre, post, x)
        } else {
            post == pre
        }
    } else {
        post == pre
    }
}

/// What one full machine step with the polled key `key` does: the two bytes
/// at the program counter are fetched (the counter advancing by 2, wrapping
/// at 16 bits), the all-zero word reports the program finished (`cont` false)
/// without executing, and any other word is executed per [`decode_effect`]
/// with `cont` true.
pub open spec fn step_effect(pre: CPU, post: CPU, key: u8, cont: bool) -> bool {
    let w = word_at(pre.mem.data@, pre.pc as int);
    let fetched = CPU { pc: wrap16(pre.pc + 2), ..pre };
    if w[0] == 0 && w[1] == 0 {
        &&& !cont
        &&& post == fetched
    } else {
        &&& cont
        &&& decode_effect(fetched, post, w[0], w[1], key)
    }
}

/* CPU functionality: fetch, decode, exec */
impl CPU {
    /// Decodes the instruction and dispatches to the matching handler; see
    /// [`decode_effect`] for what each opcode does.
    fn decode_instruction(&mut self, instruction: Instruction, input_key: u8)
        requires
            instruction.wf(),
        ensures
            decode_effect(
                *old(self),
                *final(self),
                instruction.inst@[0],
                instruction.inst@[1],
                input_key,
            ),
    {
        // Switch on the first nibble of the instruction
        match instruction.nib1 {
            0 => match instruction.inst[1] {
                0xE0 => {
                    self.clear_screen();
                },  // 00E0
                0xEE => {
                    self.load_pc_and_jump();
                },  // 00EE => Load and Jump
                _ => {},  // 0000 exit marker, or not implemented
            },
            1 => {
                self.jump(instruction);
            },  // 1NNN => Jump
            2 => {
                self.jump_and_store_pc(instruction);
            },  // 2NNN
            3 => {
                // 3XNN
                let v1: u8 = self.regs[instruction.nib2 as usize];
                self.skip(v1, instruction.inst[1], true);
            },
            4 => {
                // 4XNN
                let v1: u8 = self.regs[instruction.nib2 as usize];
                self.skip(v1, instruction.inst[1], false);
            },
            5 => {
                // 5XY0
                let v1: u8 = self.regs[instruction.nib2 as usize];
                let v2: u8 = self.regs[instruction.nib3 as usize];
                self.skip(v1, v2, true);
            },
            6 => {
                self.set(instruction);
            },  // 6XNN => Set
            7 => {
                self.add(instruction);
            },  // 7XNN => Add
            8 => {
                match instruction.nib4 {
                    0 => {
                        self.set_reg(instruction);
                    },  // 8XY0
                    1 => {
                        self.bin_or(instruction);
                    },  // 8XY1
                    2 => {
                        self.bin_and(instruction);
                    },  // 8XY2
                    3 => {
                        self.bin_xor(instruction);
                    },  // 8XY3
                    4 => {
                        self.reg_add(instruction);
                    },  // 8XY4
                    5 => {
                        self.reg_sub(instruction.nib2, instruction.nib3, true);
                    },  // 8XY5
                    6 => {
                        self.reg_shift(instruction, false);
                    },  // 8XY6
                    7 => {
                        self.reg_sub(instruction.nib3, instruction.nib2, false);
                    },  // 8XY7
                    0xE => {
                        self.reg_shift(instruction, true);
                    },  // 8XYE
                    _ => {},
                }
            },
            9 => {
                // 9XY0
                let v1: u8 = self.regs[instruction.nib2 as usize];
                let v2: u8 = self.regs[instruction.nib3 as usize];
                self.skip(v1, v2, false);
            },
            0xA => {
                self.set_ireg(instruction);
            },  // ANNN => Set I Register
            0xB => {
                self.jump_offset(instruction);
            },  // BNNN => Jump w/ offset
            0xC => {
                self.random(instruction);
            },  // CXNN => Random, masked by NN
            0xD => {
                self.dxyn(instruction);
            },  // DXYN => Draw display
            0xE => {
                match instruction.nib4 {
                    0x1 => {
                        /* EXA1 */
                        let v1: u8 = self.regs[instruction.nib2 as usize];
                        self.skip(v1, input_key, false);
                    },
                    0xE => {
                        /* EX9E */
                        let v1: u8 = self.regs[instruction.nib2 as usize];
                        self.skip(v1, input_key, true);
                    },
                    _ => {},
                }
            },
            0xF => {
                match instruction.nib4 {
                    3 => {
                        self.binary_coded_decimal_conv(instruction);
                    },  // FX33
                    5 => {
                        match instruction.nib3 {
                            1 => {
                                self.store_vx_timer(instruction, true);
                            },  // FX15
                            5 => {
                                self.store(instruction);
                            },  // FX55
                            6 => {
                                self.load(instruction);
                            },  // FX65
                            _ => {},
                        }
                    },
                    7 => {
                        self.set_vx_delaytimer(instruction);
                    },  // FX07
                    8 => {
                        self.store_vx_timer(instruction, false);
                    },  // FX18
                    9 => {
                        self.font_char(instruction);
                    },  // FX29
                    0xA => {
                        self.get_key(instruction, input_key);
                    },  // FX0A
                    0xE => {
                        self.add_regi(instruction);
                    },  // FX1E
                    _ => {},
                }
            },
            /* Invalid instruction was passed in: tolerant no-op */
            _ => {},
        }
    }

    /// Execute one instruction with the key code polled for this cycle; the
    /// result is false exactly when the all-zero halt word was fetched.
    pub fn exec(&mut self, input_key: u8) -> (r: bool)
        ensures
            step_effect(*old(self), *final(self), input_key, r),
    {
        let next: Instruction = self.fetch_next_instruction();
        proof {
            let b0 = word_at(old(self).mem.data@, old(self).pc as int)[0];
            let b1 = word_at(old(self).mem.data@, old(self).pc as int)[1];
            assert((b0 >> 4 == 0 && ((((b0 & 0x0F) as u16) << 8) | (b1 as u16)) == 0) <==> (b0
                == 0 && b1 == 0)) by (bit_vector);
        }
        if next.nib1 == 0 && next.nib234 == 0x000 {
            return false;
        }
        self.decode_instruction(next, input_key);
        true
    }

    /// Execute instructions until the halt word is fetched, handing every
    /// cycle the "no key" sentinel. A step budget bounds the loop for
    /// programs that never halt; it is far beyond what any program that does
    /// halt consumes.
    pub fn _run(&mut self) {
        let mut steps_left: u64 = 0xffff_ffff_ffff_ffff;
        while steps_left > 0
            decreases steps_left,
        {
            steps_left = steps_left - 1;
            let not_done: bool = self.exec(0xf0);
            if !not_done {
                return;
            }
        }
    }
    /// Fetches the next instruction from the program, updates the program
    /// counter (wrapping at the 16-bit boundary). Out-of-range program
    /// counters fetch the all-zero word, per the memory's read defaults.
    pub fn fetch_next_instruction(&mut self) -> (out: Instruction)
        ensures
            *final(self) == (CPU { pc: final(self).pc, ..*old(self) }),
            final(self).pc == wrap16(old(self).pc + 2),
            out.decodes(
                word_at(old(self).mem.data@, old(self).pc as int)[0],
                word_at(old(self).mem.data@, old(self).pc as int)[1],
            ),
            out.wf(),
    {
        let data: [u8; 2] = self.mem.read16(self.pc as usize);
        let out: Instruction = make_instruction(data);
        self.pc = if self.pc <= 0xFFFD {
            self.pc + 2
        } else {
            self.pc - 0xFFFE
        };
        out
    }
}

/// Relies on rand::random (the thread-local generator of the rand crate):
/// one random byte. Nothing is promised of the value; the machine's effect
/// holds whatever byte comes back.
#[verifier::external_body]
fn random_byte() -> u8 {
    rand::random::<u8>()
}

/* Instruction set */
impl CPU {
    /// Clears the display to be all dark.
    fn clear_screen(&mut self)
        ensures
            clear_effect(*old(self), *final(self)),
    {
        let mut pixel_row: usize = 0;
        while pixel_row < 32
            invariant
                *self == (CPU { display: self.display, ..*old(self) }),
                forall|r: int, c: int|
                    0 <= r < pixel_row && 0 <= c < 64 ==> !pixel(self.display, r, c),
            decreases 32 - pixel_row,
        {
            let ghost prev = self.display;
            let dark_row: [bool; 64] = [false; 64];
            self.display.screen[pixel_row] = dark_row;
            proof {
                assert forall|r: int, c: int|
                    0 <= r < pixel_row + 1 && 0 <= c < 64 implies !pixel(self.display, r, c) by {
                    if r == pixel_row as int {
                        assert(self.display.screen@[r] == dark_row);
                        assert(!dark_row@[c]);
                    } else {
                        assert(!pixel(prev, r, c));
                        assert(self.display.screen@[r] == prev.screen@[r]);
                    }
                }
            }
            pixel_row += 1;
        }
    }

    /// Pops the program counter from the stack and jumps to it; a no-op when
    /// the stack is empty.
    fn load_pc_and_jump(&mut self)
        ensures
            ret_effect(*old(self), *final(self)),
    {
        if self.stack.len() > 0 {
            let addr: u16 = self.stack.pop().unwrap();
            self.pc = addr;
        }
    }

    /// Used for jump statements.
    fn goto(&mut self, address: u16)
        ensures
            jump_effect(*old(self), *final(self), address),
    {
        self.pc = address;
    }

    /// `1NNN`: sets the program counter to the instruction's address field.
    fn jump(&mut self, instruction: Instruction)
        requires
            instruction.wf(),
        ensures
            jump_effect(*old(self), *final(self), instruction.nib234),
    {
        self.goto(instruction.nib234);
    }

    /// `2NNN`: pushes the program counter onto the stack, then jumps.
    fn jump_and_store_pc(&mut self, instruction: Instruction)
        requires
            instruction.wf(),
        ensures
            call_effect(*old(self), *final(self), instruction.nib234),
    {
        /* Push the program counter onto the stack */
        let pc: u16 = self.pc;
        self.stack.push(pc);

        /* Jump to desired address */
        self.jump(instruction);
    }

    /// Skips one instruction when the comparison matches: equality of `val1`
    /// and `val2` when `check_eq`, inequality otherwise.
    fn skip(&mut self, val1: u8, val2: u8, check_eq: bool)
        ensures
            skip_effect(*old(self), *final(self), val1, val2, check_eq),
    {
        let mut skip: bool = false;

        if check_eq {
            skip = val1 == val2;
        } else {
            skip = val1 != val2;
        }

        if skip {
            self.pc = if self.pc <= 0xFFFD {
                self.pc + 2
            } else {
                self.pc - 0xFFFE
            };
        }
    }

    /// `6XNN`: sets register X to the immediate.
    fn set(&mut self, instruction: Instruction)
        requires
            instruction.wf(),
        ensures
            reg_write_effect(
                *old(self),
                *final(self),
                instruction.nib2 as int,
                instruction.inst@[1],
            ),
    {
        self.regs[instruction.nib2 as usize] = instruction.inst[1];
    }

    /// `7XNN`: adds the immediate to register X, wrapping, with no flag
    /// effect.
    fn add(&mut self, instruction: Instruction)
        requires
            instruction.wf(),
        ensures
            reg_write_effect(
                *old(self),
                *final(self),
                instruction.nib2 as int,
                add_wrap(old(self).regs@[instruction.nib2 as int], instruction.inst@[1]),
            ),
    {
        let sum: u16 = self.regs[instruction.nib2 as usize] as u16 + instruction.inst[1] as u16;
        self.regs[instruction.nib2 as usize] = (sum % 256) as u8;
    }

    /// `8XY0`: sets register X to register Y.
    fn set_reg(&mut self, instruction: Instruction)
        requires
            instruction.wf(),
        ensures
            reg_write_effect(
                *old(self),
                *final(self),
                instruction.nib2 as int,
                old(self).regs@[instruction.nib3 as int],
            ),
    {
        self.regs[instruction.nib2 as usize] = self.regs[instruction.nib3 as usize];
    }

    /// `8XY1`: X |= Y.
    fn bin_or(&mut self, instruction: Instruction)
        requires
            instruction.wf(),
        ensures
            reg_write_effect(
                *old(self),
                *final(self),
                instruction.nib2 as int,
                old(self).regs@[instruction.nib2 as int] | old(self).regs@[instruction.nib3 as int],
            ),
    {
        let v: u8 = self.regs[instruction.nib2 as usize] | self.regs[instruction.nib3 as usize];
        self.regs[instruction.nib2 as usize] = v;
    }

    /// `8XY2`: X &= Y.
    fn bin_and(&mut self, instruction: Instruction)
        requires
            instruction.wf(),
        ensures
            reg_write_effect(
                *old(self),
                *final(self),
                instruction.nib2 as int,
                old(self).regs@[instruction.nib2 as int] & old(self).regs@[instruction.nib3 as int],
            ),
    {
        let v: u8 = self.regs[instruction.nib2 as usize] & self.regs[instruction.nib3 as usize];
        self.regs[instruction.nib2 as usize] = v;
    }

    /// `8XY3`: X ^= Y.
    fn bin_xor(&mut self, instruction: Instruction)
        requires
            instruction.wf(),
        ensures
            reg_write_effect(
                *old(self),
                *final(self),
                instruction.nib2 as int,
                old(self).regs@[instruction.nib2 as int] ^ old(self).regs@[instruction.nib3 as int],
            ),
    {
        let v: u8 = self.regs[instruction.nib2 as usize] ^ self.regs[instruction.nib3 as usize];
        self.regs[instruction.nib2 as usize] = v;
    }

    /// `8XY4`: X += Y, with the flag register recording the carry.
    fn reg_add(&mut self, instruction: Instruction)
        requires
            instruction.wf(),
        ensures
            reg_add_effect(*old(self), *final(self), instruction.nib2 as int, instruction.nib3 as int),
    {
        let sum: u16 = self.regs[instruction.nib2 as usize] as u16
            + self.regs[instruction.nib3 as usize] as u16;

        self.regs[0x0f] = if sum > 255 {
            0x01
        } else {
            0x00
        };
        self.regs[instruction.nib2 as usize] = (sum % 256) as u8;
    }

    /// `8XY5`/`8XY7`: regs[reg1] - regs[reg2], wrapping, stored into reg1 or
    /// reg2 per `set_reg1`; the flag register records "no borrow".
    fn reg_sub(&mut self, reg1: u8, reg2: u8, set_reg1: bool)
        requires
            reg1 < 16,
            reg2 < 16,
        ensures
            reg_sub_effect(*old(self), *final(self), reg1 as int, reg2 as int, set_reg1),
    {
        let a: u8 = self.regs[reg1 as usize];
        let b: u8 = self.regs[reg2 as usize];
        let res: u8 = if a >= b {
            a - b
        } else {
            (a as u16 + 256 - b as u16) as u8
        };

        self.regs[0x0f] = if a >= b {
            0x01
        } else {
            0x00
        };
        if set_reg1 {
            self.regs[reg1 as usize] = res;
        } else {
            self.regs[reg2 as usize] = res;
        }
    }

    /// `8XY6`/`8XYE`: shift register X right or left by one, the flag register
    /// taking the bit shifted out.
    fn reg_shift(&mut self, instruction: Instruction, left_shift: bool)
        requires
            instruction.wf(),
        ensures
            shift_effect(*old(self), *final(self), instruction.nib2 as int, left_shift),
    {
        if !left_shift {
            self.regs[0x0f] = self.regs[instruction.nib2 as usize] & 0x01;
            let v: u8 = self.regs[instruction.nib2 as usize];
            self.regs[instruction.nib2 as usize] = v >> 1;
        } else {
            self.regs[0x0f] = (self.regs[instruction.nib2 as usize] & 0x80) >> 7;
            let v: u8 = self.regs[instruction.nib2 as usize];
            self.regs[instruction.nib2 as usize] = v << 1;
        }
    }

    /// `ANNN`: sets the index register to the instruction's address field.
    fn set_ireg(&mut self, instruction: Instruction)
        requires
            instruction.wf(),
        ensures
            set_ireg_effect(*old(self), *final(self), instruction.nib234),
    {
        self.ireg = instruction.nib234;
    }

    /// `BNNN`: jumps to register 0 plus the instruction's address field.
    fn jump_offset(&mut self, instruction: Instruction)
        requires
            instruction.wf(),
        ensures
            jump_offset_effect(*old(self), *final(self), instruction.nib234),
    {
        let address: u16 = (self.regs[0] as u16) + instruction.nib234;
        self.goto(address);
    }

    /// `CXNN`: gets a random byte and masks it with the immediate into
    /// register X.
    fn random(&mut self, instruction: Instruction)
        requires
            instruction.wf(),
        ensures
            random_effect(*old(self), *final(self), instruction.nib2 as int, instruction.inst@[1]),
    {
        let n: u8 = random_byte();
        let v: u8 = instruction.inst[1] & n;
        self.regs[instruction.nib2 as usize] = v;
        proof {
            assert(self.regs@ == old(self).regs@.update(
                instruction.nib2 as int,
                instruction.inst@[1] & n,
            ));
            assert(exists|m: u8|
                self.regs@ == old(self).regs@.update(
                    instruction.nib2 as int,
                    instruction.inst@[1] & m,
                ));
        }
    }

    /// `FX33`: stores the decimal digits of register X's value at the index
    /// register's address (hundreds, tens, ones), each through a
    /// bounds-checked write.
    fn binary_coded_decimal_conv(&mut self, instruction: Instruction)
        requires
            instruction.wf(),
        ensures
            bcd_effect(*old(self), *final(self), instruction.nib2 as int),
    {
        let num_to_conv: u8 = self.regs[instruction.nib2 as usize];
        let addr: usize = self.ireg as usize;

        self.mem.write8(addr, num_to_conv / 100);
        self.mem.write8(addr + 1, (num_to_conv / 10) % 10);
        self.mem.write8(addr + 2, num_to_conv % 10);
    }

    /// `FX15`/`FX18`: arms the delay or the sound timer with register X's
    /// value.
    fn store_vx_timer(&mut self, instruction: Instruction, is_delay: bool)
        requires
            instruction.wf(),
        ensures
            timer_set_effect(*old(self), *final(self), instruction.nib2 as int, is_delay),
    {
        let v: u8 = self.regs[instruction.nib2 as usize];
        if is_delay {
            self.delay_timer.set_timer(v);
        } else {
            self.sound_timer.set_timer(v);
        }
    }

    /// `FX55`: spills registers 0..=X to memory at the index register, each
    /// through a bounds-checked write.
    fn store(&mut self, instruction: Instruction)
        requires
            instruction.wf(),
        ensures
            store_effect(*old(self), *final(self), instruction.nib2 as int),
    {
        let count: usize = instruction.nib2 as usize + 1;
        let mut i: usize = 0;
        while i < count
            invariant
                0 <= i <= count,
                count == instruction.nib2 + 1,
                instruction.nib2 <= 0x0F,
                *self == (CPU { mem: self.mem, ..*old(self) }),
                forall|a: int|
                    0 <= a < 4096 ==> self.mem.data@[a] == (
                    if old(self).ireg <= a < old(self).ireg + i && 1 <= a <= 4095 {
                        old(self).regs@[a - old(self).ireg]
                    } else {
                        old(self).mem.data@[a]
                    }),
            decreases count - i,
        {
            let b: u8 = self.regs[i];
            self.mem.write8(self.ireg as usize + i, b);
            i += 1;
        }
    }

    /// `FX65`: fills registers 0..=X from memory at the index register, each
    /// through a bounds-checked (default-0) read.
    fn load(&mut self, instruction: Instruction)
        requires
            instruction.wf(),
        ensures
            load_effect(*old(self), *final(self), instruction.nib2 as int),
    {
        let count: usize = instruction.nib2 as usize + 1;
        let mut i: usize = 0;
        while i < count
            invariant
                0 <= i <= count,
                count == instruction.nib2 + 1,
                instruction.nib2 <= 0x0F,
                *self == (CPU { regs: self.regs, ..*old(self) }),
                forall|j: int|
                    0 <= j < 16 ==> self.regs@[j] == (
                    if j < i {
                        byte_at(old(self).mem.data@, old(self).ireg + j)
                    } else {
                        old(self).regs@[j]
                    }),
            decreases count - i,
        {
            let b: u8 = self.mem.read8(self.ireg as usize + i);
            self.regs[i] = b;
            i += 1;
        }
    }

    /// `FX07`: sets register X to the delay timer's current value.
    fn set_vx_delaytimer(&mut self, instruction: Instruction)
        requires
            instruction.wf(),
        ensures
            reg_write_effect(
                *old(self),
                *final(self),
                instruction.nib2 as int,
                old(self).delay_timer.value,
            ),
    {
        let v: u8 = self.delay_timer.value;
        self.regs[instruction.nib2 as usize] = v;
    }

    /// `FX29`: points the index register at the font glyph for the low nibble
    /// of register X.
    fn font_char(&mut self, instruction: Instruction)
        requires
            instruction.wf(),
        ensures
            font_char_effect(*old(self), *final(self), instruction.nib2 as int),
    {
        /* Look at the last nibble of VX, and set ireg to the font
         * corresponding to it */
        let font_num: u8 = self.regs[instruction.nib2 as usize] & 0x0F;
        self.ireg = (memory::_FONT_START as u16) + 5 * (font_num as u16);
    }

    /// `FX0A`: with the "no key" sentinel, rewinds the program counter by one
    /// instruction so the same opcode is re-fetched next cycle (a polling
    /// wait); with a key, stores the key code in register X.
    fn get_key(&mut self, instruction: Instruction, input_key: u8)
        requires
            instruction.wf(),
        ensures
            get_key_effect(*old(self), *final(self), instruction.nib2 as int, input_key),
    {
        if input_key == 0xf0 {
            self.pc = if self.pc >= 2 {
                self.pc - 2
            } else {
                self.pc + 0xFFFE
            };
            return;
        }
        self.regs[instruction.nib2 as usize] = input_key;
    }

    /// `FX1E`: adds register X to the index register, wrapping at 16 bits;
    /// the flag register is set when the sum overflows the 12-bit addressing
    /// range, and untouched otherwise.
    fn add_regi(&mut self, instruction: Instruction)
        requires
            instruction.wf(),
        ensures
            add_regi_effect(*old(self), *final(self), instruction.nib2 as int),
    {
        let sum: u32 = self.ireg as u32 + self.regs[instruction.nib2 as usize] as u32;
        let wrapped: u16 = (sum % 0x10000) as u16;

        self.ireg = wrapped;
        /* Overflow past normal addressing */
        if sum > 0xFFFF || wrapped > 0x0fff {
            self.regs[0x0f] = 0x01;
        }
    }
}

/// Cuts that touch exactly the same cells see the same collisions.
proof fn lemma_collides_same_cover(pre: CPU, x0: int, y0: int, i1: int, j1: int, i2: int, j2: int)
    requires
        forall|r: int, c: int|
            draw_covers_partial(pre, x0, y0, i1, j1, r, c) == draw_covers_partial(
                pre,
                x0,
                y0,
                i2,
                j2,
                r,
                c,
            ),
    ensures
        draw_collides_partial(pre, x0, y0, i1, j1) == draw_collides_partial(pre, x0, y0, i2, j2),
{
    if draw_collides_partial(pre, x0, y0, i1, j1) {
        let (r, c) = choose|r: int, c: int|
            0 <= r < 32 && 0 <= c < 64 && draw_covers_partial(pre, x0, y0, i1, j1, r, c) && pixel(
                pre.display,
                r,
                c,
            );
        assert(draw_covers_partial(pre, x0, y0, i2, j2, r, c));
        assert(draw_collides_partial(pre, x0, y0, i2, j2));
    }
    if draw_collides_partial(pre, x0, y0, i2, j2) {
        let (r, c) = choose|r: int, c: int|
            0 <= r < 32 && 0 <= c < 64 && draw_covers_partial(pre, x0, y0, i2, j2, r, c) && pixel(
                pre.display,
                r,
                c,
            );
        assert(draw_covers_partial(pre, x0, y0, i1, j1, r, c));
        assert(draw_collides_partial(pre, x0, y0, i1, j1));
    }
}

/// A cut at the start of a row collides exactly when the whole-row prefix
/// does.
proof fn lemma_collides_as_partial(pre: CPU, x0: int, y0: int, i: int)
    ensures
        draw_collides(pre, x0, y0, i) == draw_collides_partial(pre, x0, y0, i, 0),
{
    if draw_collides(pre, x0, y0, i) {
        let (r, c) = choose|r: int, c: int|
            0 <= r < 32 && 0 <= c < 64 && draw_covers(pre, x0, y0, i, r, c) && pixel(
                pre.display,
                r,
                c,
            );
        assert(draw_covers_partial(pre, x0, y0, i, 0, r, c));
        assert(draw_collides_partial(pre, x0, y0, i, 0));
    }
    if draw_collides_partial(pre, x0, y0, i, 0) {
        let (r, c) = choose|r: int, c: int|
            0 <= r < 32 && 0 <= c < 64 && draw_covers_partial(pre, x0, y0, i, 0, r, c) && pixel(
                pre.display,
                r,
                c,
            );
        assert(draw_covers(pre, x0, y0, i, r, c));
        assert(draw_collides(pre, x0, y0, i));
    }
}

impl CPU {
    /// `DXYN`: draws the sprite at the index register onto the display: an
    /// XOR blit of `N` rows of 8 bits, clipped at the screen edges, with the
    /// flag register recording whether any lit pixel was turned off.
    fn dxyn(&mut self, instruction: Instruction)
        requires
            instruction.wf(),
        ensures
            draw_effect(
                *old(self),
                *final(self),
                instruction.nib2 as int,
                instruction.nib3 as int,
                instruction.nib4,
            ),
    {
        let ghost pre = *old(self);

        /* Get the x and y coords of the instruction */
        let vx: u8 = self.regs[instruction.nib2 as usize] % 64;
        let vy: u8 = self.regs[instruction.nib3 as usize] % 32;
        let ghost x0 = pre.regs@[instruction.nib2 as int] as int % 64;
        let ghost y0 = pre.regs@[instruction.nib3 as int] as int % 32;

        let n: usize = instruction.nib4 as usize;

        self.regs[0xF] = 0;  /* Set VF = 0 */

        let mut i: usize = 0;
        while i < n
            invariant
                0 <= i <= n,
                n == instruction.nib4 as int,
                vx as int == x0,
                vy as int == y0,
                0 <= x0 < 64,
                0 <= y0 < 32,
                *self == (CPU { display: self.display, regs: self.regs, ..pre }),
                self.regs@ == pre.regs@.update(
                    15,
                    if draw_collides_partial(pre, x0, y0, i as int, 0) {
                        1u8
                    } else {
                        0u8
                    },
                ),
                forall|r: int, c: int|
                    0 <= r < 32 && 0 <= c < 64 ==> #[trigger] pixel(self.display, r, c) == (
                    if draw_covers_partial(pre, x0, y0, i as int, 0, r, c) {
                        !pixel(pre.display, r, c)
                    } else {
                        pixel(pre.display, r, c)
                    }),
            decreases n - i,
        {
            let row_y: usize = vy as usize + i;
            if row_y < 32 {
                let pixel_sprite: u8 = self.mem.read8(self.ireg as usize + i);
                proof {
                    assert(pixel_sprite == sprite_row(pre, i as int));
                }
                let mut pixel_i: usize = 0;
                while pixel_i < 8
                    invariant
                        0 <= pixel_i <= 8,
                        0 <= i < n,
                        n == instruction.nib4 as int,
                        vx as int == x0,
                        vy as int == y0,
                        0 <= x0 < 64,
                        0 <= y0 < 32,
                        row_y == y0 + i,
                        row_y < 32,
                        pixel_sprite == sprite_row(pre, i as int),
                        *self == (CPU { display: self.display, regs: self.regs, ..pre }),
                        self.regs@ == pre.regs@.update(
                            15,
                            if draw_collides_partial(pre, x0, y0, i as int, pixel_i as int) {
                                1u8
                            } else {
                                0u8
                            },
                        ),
                        forall|r: int, c: int|
                            0 <= r < 32 && 0 <= c < 64 ==> #[trigger] pixel(self.display, r, c)
                                == (
                            if draw_covers_partial(pre, x0, y0, i as int, pixel_i as int, r, c) {
                                !pixel(pre.display, r, c)
                            } else {
                                pixel(pre.display, r, c)
                            }),
                    decreases 8 - pixel_i,
                {
                    let col_x: usize = vx as usize + pixel_i;
                    let mask: u8 = 0x80u8 >> (pixel_i as u8);
                    let bit_set: bool = pixel_sprite & mask != 0;
                    if col_x < 64 && bit_set {
                        proof {
                            assert(sprite_bit(sprite_row(pre, i as int), pixel_i as int));
                        }
                        let ghost prev = *self;
                        let mut row: [bool; 64] = self.display.screen[row_y];
                        let cur: bool = row[col_x];
                        if cur {
                            self.regs[0x0F] = 1;
                        }
                        row[col_x] = !cur;
                        self.display.screen[row_y] = row;
                        proof {
                            let gi = i as int;
                            let gj = pixel_i as int;
                            let gr = row_y as int;
                            let gc = col_x as int;
                            /* the target cell is not covered by the cut so
                             * far, so it still shows its pre-draw value */
                            assert(!draw_covers_partial(pre, x0, y0, gi, gj, gr, gc));
                            assert(pixel(prev.display, gr, gc) == pixel(pre.display, gr, gc));
                            assert(cur == pixel(pre.display, gr, gc));
                            assert(draw_covers_partial(pre, x0, y0, gi, gj + 1, gr, gc));
                            /* the display now matches the cut extended by
                             * this bit */
                            assert forall|r: int, c: int|
                                0 <= r < 32 && 0 <= c < 64 implies #[trigger] pixel(
                                self.display,
                                r,
                                c,
                            ) == (
                            if draw_covers_partial(pre, x0, y0, gi, gj + 1, r, c) {
                                !pixel(pre.display, r, c)
                            } else {
                                pixel(pre.display, r, c)
                            }) by {
                                if r == gr && c == gc {
                                    assert(self.display.screen@[r] == row);
                                    assert(pixel(self.display, r, c) == !cur);
                                } else {
                                    if r == gr {
                                        assert(row@[c] == prev.display.screen@[r]@[c]);
                                    }
                                    assert(pixel(self.display, r, c) == pixel(prev.display, r, c));
                                    assert(draw_covers_partial(pre, x0, y0, gi, gj + 1, r, c)
                                        == draw_covers_partial(pre, x0, y0, gi, gj, r, c));
                                }
                            }
                            /* and the flag matches the extended cut */
                            if cur {
                                assert(draw_collides_partial(pre, x0, y0, gi, gj + 1));
                                assert(pre.regs@.update(15, 0u8).update(15, 1u8) =~= pre.regs@
                                    .update(15, 1u8));
                                assert(pre.regs@.update(15, 1u8).update(15, 1u8) =~= pre.regs@
                                    .update(15, 1u8));
                            } else {
                                if draw_collides_partial(pre, x0, y0, gi, gj + 1) {
                                    let (r, c) = choose|r: int, c: int|
                                        0 <= r < 32 && 0 <= c < 64 && draw_covers_partial(
                                            pre,
                                            x0,
                                            y0,
                                            gi,
                                            gj + 1,
                                            r,
                                            c,
                                        ) && pixel(pre.display, r, c);
                                    if !(r == gr && c == gc) {
                                        assert(draw_covers_partial(pre, x0, y0, gi, gj, r, c));
                                    }
                                    assert(draw_collides_partial(pre, x0, y0, gi, gj));
                                }
                                if draw_collides_partial(pre, x0, y0, gi, gj) {
                                    let (r, c) = choose|r: int, c: int|
                                        0 <= r < 32 && 0 <= c < 64 && draw_covers_partial(
                                            pre,
                                            x0,
                                            y0,
                                            gi,
                                            gj,
                                            r,
                                            c,
                                        ) && pixel(pre.display, r, c);
                                    assert(draw_covers_partial(pre, x0, y0, gi, gj + 1, r, c));
                                    assert(draw_collides_partial(pre, x0, y0, gi, gj + 1));
                                }
                            }
                        }
                    } else {
                        proof {
                            let gi = i as int;
                            let gj = pixel_i as int;
                            /* this bit paints nothing: unset, or clipped at
                             * the right edge */
                            assert forall|r: int, c: int|
                                draw_covers_partial(pre, x0, y0, gi, gj + 1, r, c)
                                    == draw_covers_partial(pre, x0, y0, gi, gj, r, c) by {
                                if r == y0 + gi && c == x0 + gj && r < 32 && c < 64 {
                                    assert(!sprite_bit(sprite_row(pre, gi), gj));
                                }
                            }
                            lemma_collides_same_cover(pre, x0, y0, gi, gj + 1, gi, gj);
                        }
                    }
                    pixel_i += 1;
                }
                proof {
                    /* a fully painted row is the same cut as the start of the
                     * next row */
                    let gi = i as int;
                    assert forall|r: int, c: int|
                        draw_covers_partial(pre, x0, y0, gi, 8, r, c) == draw_covers_partial(
                            pre,
                            x0,
                            y0,
                            gi + 1,
                            0,
                            r,
                            c,
                        ) by {}
                    lemma_collides_same_cover(pre, x0, y0, gi, 8, gi + 1, 0);
                }
            } else {
                proof {
                    /* the whole row lies below the bottom edge: clipped */
                    let gi = i as int;
                    assert forall|r: int, c: int|
                        draw_covers_partial(pre, x0, y0, gi, 0, r, c) == draw_covers_partial(
                            pre,
                            x0,
                            y0,
                            gi + 1,
                            0,
                            r,
                            c,
                        ) by {}
                    lemma_collides_same_cover(pre, x0, y0, gi, 0, gi + 1, 0);
                }
            }
            i += 1;
        }
        proof {
            let gn = instruction.nib4 as int;
            assert forall|r: int, c: int|
                draw_covers_partial(pre, x0, y0, gn, 0, r, c) == draw_covers(
                    pre,
                    x0,
                    y0,
                    gn,
                    r,
                    c,
                ) by {}
            lemma_collides_as_partial(pre, x0, y0, gn);
        }
    }
}

/// The byte every channel of host-frame pixel `i` takes when the machine's
/// display is painted: dark only where the pixel maps inside the 64x32 screen
/// and that cell is off, white everywhere else.
pub open spec fn frame_color(core: CPU, i: int) -> u8 {
    let x = i % (WIDTH as int);
    let y = i / (WIDTH as int);
    if x < 64 && y < 32 && !pixel(core.display, y, x) {
        0x00
    } else {
        0xff
    }
}

impl World {
    /// Create a new `World` instance.
    pub fn new() -> Self {
        World {}
    }

    /// Draw the machine's display into an RGBA frame buffer laid out in rows
    /// of [`WIDTH`] pixels: each complete four-byte pixel takes its color per
    /// [`frame_color`] in all four channels; trailing bytes of a length not
    /// divisible by four stay as they were.
    pub fn draw(&self, core: &CPU, frame: &mut [u8])
        ensures
            final(frame)@.len() == old(frame)@.len(),
            forall|k: int|
                0 <= k < old(frame)@.len() ==> final(frame)@[k] == (
                if k / 4 < old(frame)@.len() / 4 {
                    frame_color(*core, k / 4)
                } else {
                    old(frame)@[k]
                }),
    {
        let total: usize = frame.len() / 4;
        let mut i: usize = 0;
        while i < total
            invariant
                0 <= i <= total,
                frame@.len() == old(frame)@.len(),
                total == frame@.len() / 4,
                forall|k: int|
                    0 <= k < frame@.len() ==> frame@[k] == (
                    if k / 4 < i {
                        frame_color(*core, k / 4)
                    } else {
                        old(frame)@[k]
                    }),
            decreases total - i,
        {
            let x: usize = i % (WIDTH as usize);
            let y: usize = i / (WIDTH as usize);

            let in_screen: bool = x < 64 && y < 32;
            let color: u8 = if in_screen {
                let row: [bool; 64] = core.display.screen[y];
                if row[x] == false {
                    0x00
                } else {
                    0xff
                }
            } else {
                0xff
            };

            let ghost prev = frame@;
            frame[4 * i] = color;
            frame[4 * i + 1] = color;
            frame[4 * i + 2] = color;
            frame[4 * i + 3] = color;
            proof {
                let gi = i as int;
                assert(color == frame_color(*core, gi));
                assert forall|k: int|
                    0 <= k < frame@.len() implies frame@[k] == (
                if k / 4 < gi + 1 {
                    frame_color(*core, k / 4)
                } else {
                    old(frame)@[k]
                }) by {
                    if 4 * gi <= k < 4 * gi + 4 {
                        assert(k / 4 == gi);
                        assert(frame@[k] == color);
                    } else {
                        assert(frame@[k] == prev[k]);
                        assert(k / 4 != gi);
                    }
                }
            }
            i += 1;
        }
    }
}

/* Laws the instruction set obeys, stated over the same effect predicates the
 * handlers are specified with. */

/// Call/return law: after a call (`2NNN`) and a following return (`00EE`) the
/// stack is back to its pre-call content (in particular its depth), and the
/// program counter is back at the address immediately after the call
/// instruction (handlers run after the fetch, so that address is `pre.pc`).
pub proof fn lemma_call_then_return(pre: CPU, mid: CPU, post: CPU, addr: u16)
    requires
        call_effect(pre, mid, addr),
        ret_effect(mid, post),
    ensures
        post.stack@ == pre.stack@,
        post.stack@.len() == pre.stack@.len(),
        post.pc == pre.pc,
{
    assert(mid.stack@.len() == pre.stack@.len() + 1);
    assert(mid.stack@.last() == pre.pc);
    assert(mid.stack@.drop_last() =~= pre.stack@);
}

/// Skip law: measured from the address the skip instruction was fetched
/// from, a matching comparison advances the program counter by 4 in total
/// (the fetch's 2 plus the skip's 2) and a non-matching one by 2 (the fetch
/// alone), wrapping at 16 bits.
pub proof fn lemma_skip_total(pre: CPU, mid: CPU, post: CPU, v1: u8, v2: u8, check_eq: bool)
    requires
        mid == (CPU { pc: wrap16(pre.pc + 2), ..pre }),
        skip_effect(mid, post, v1, v2, check_eq),
    ensures
        skip_taken(v1, v2, check_eq) ==> post.pc == wrap16(pre.pc + 4),
        !skip_taken(v1, v2, check_eq) ==> post.pc == wrap16(pre.pc + 2),
{
}

/// Draw-collision law: on a display whose cells are all dark, a draw of a
/// sprite whose first row starts with a set bit leaves the collision flag 0,
/// and drawing the same sprite again at the same coordinates (the coordinate
/// and flag registers being distinct) finds its own pixels and sets the flag
/// to 1.
pub proof fn lemma_draw_collision(pre: CPU, mid: CPU, post: CPU, x: int, y: int, n: u8)
    requires
        0 <= x < 16,
        0 <= y < 16,
        x != 15,
        y != 15,
        n >= 1,
        sprite_bit(sprite_row(pre, 0), 0),
        forall|r: int, c: int| 0 <= r < 32 && 0 <= c < 64 ==> !pixel(pre.display, r, c),
        draw_effect(pre, mid, x, y, n),
        draw_effect(mid, post, x, y, n),
    ensures
        mid.regs@[15] == 0,
        post.regs@[15] == 1,
{
    let x0 = pre.regs@[x] as int % 64;
    let y0 = pre.regs@[y] as int % 32;

    /* first draw: nothing was lit, so nothing collides */
    assert(!draw_collides(pre, x0, y0, n as int));
    assert(mid.regs@[15] == 0);

    /* the second draw starts from the same corner, sprite and memory */
    assert(mid.regs@[x] == pre.regs@[x]);
    assert(mid.regs@[y] == pre.regs@[y]);
    assert(mid.mem == pre.mem && mid.ireg == pre.ireg);

    /* the first draw lit the sprite's top-left pixel */
    assert(0 <= y0 < 32 && 0 <= x0 < 64);
    assert(draw_covers(pre, x0, y0, n as int, y0, x0));
    assert(pixel(mid.display, y0, x0));

    /* so the second draw collides there */
    assert(sprite_row(mid, 0) == sprite_row(pre, 0));
    assert(draw_covers(mid, x0, y0, n as int, y0, x0));
    assert(draw_collides(mid, x0, y0, n as int));
    assert(post.regs@[15] == 1);
}

} // verus!
