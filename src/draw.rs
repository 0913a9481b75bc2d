//! Drawing sprites: XOR-ing rows of memory onto the screen, with wrap-around
//! and collision detection.

use crate::machine::{screen_wf, Machine, MachineState};
use crate::semantics::{
    draw_collides, drawn_screen, flag, sprite_col, sprite_covers, sprite_row,
};
use vstd::arithmetic::div_mod::{
    lemma_fundamental_div_mod, lemma_mod_multiples_vanish, lemma_small_mod,
};
use vstd::prelude::*;

verus! {

/// Screen index of the pixel that sprite cell `(r, c)` lands on.
spec fn pixel_of(vx: u8, vy: u8, r: int, c: int) -> int {
    ((vy + r) % 32) * 64 + (vx + c) % 64
}

/// Whether pixel `p` is reached by the sprite before cell `(r0, c0)`, in row-major order.
spec fn covered_before(s: MachineState, vx: u8, vy: u8, h: u8, p: int, r0: int, c0: int) -> bool {
    &&& sprite_covers(s, vx, vy, h, p)
    &&& (sprite_row(vy, p / 64) < r0 || (sprite_row(vy, p / 64) == r0 && sprite_col(vx, p % 64)
        < c0))
}

/// The screen once the sprite cells before `(r0, c0)` are drawn.
spec fn drawn_before(s: MachineState, vx: u8, vy: u8, h: u8, r0: int, c0: int) -> Seq<u8> {
    Seq::new(
        2048,
        |p: int|
            if covered_before(s, vx, vy, h, p, r0, c0) {
                s.screen[p] ^ 1
            } else {
                s.screen[p]
            },
    )
}

/// Whether a sprite cell before `(r0, c0)` hit a pixel that was on.
spec fn collides_before(s: MachineState, vx: u8, vy: u8, h: u8, r0: int, c0: int) -> bool {
    exists|p: int|
        0 <= p < 2048 && #[trigger] covered_before(s, vx, vy, h, p, r0, c0) && s.screen[p] == 1
}

/// A coordinate `a` on an axis of length `m` lies `r` steps past `base`,
/// wrapping, exactly when it is `(base + r) % m`.
proof fn lemma_wrapped_offset(base: int, a: int, r: int, m: int)
    requires
        m > 0,
        0 <= r < m,
        0 <= a < m,
    ensures
        ((a - base) % m == r) == (a == (base + r) % m),
{
    let q = (base + r) / m;
    lemma_fundamental_div_mod(base + r, m);
    lemma_mod_multiples_vanish(-q, r, m);
    lemma_small_mod(r as nat, m as nat);
    let k = (a - base) / m;
    lemma_fundamental_div_mod(a - base, m);
    lemma_mod_multiples_vanish(-k, a, m);
    lemma_small_mod(a as nat, m as nat);
    if (a - base) % m == r {
        assert(base + r == m * (-k) + a) by (nonlinear_arith)
            requires
                a - base == m * k + r,
        ;
    }
    if a == (base + r) % m {
        assert(a - base == m * (-q) + r) by (nonlinear_arith)
            requires
                base + r == m * q + a,
        ;
    }
}

/// Each sprite cell lands on exactly one pixel, and that pixel maps back to it.
proof fn lemma_pixel_of(vx: u8, vy: u8, r: int, c: int)
    requires
        0 <= r < 32,
        0 <= c < 64,
    ensures
        0 <= pixel_of(vx, vy, r, c) < 2048,
        pixel_of(vx, vy, r, c) / 64 == (vy + r) % 32,
        pixel_of(vx, vy, r, c) % 64 == (vx + c) % 64,
        sprite_row(vy, pixel_of(vx, vy, r, c) / 64) == r,
        sprite_col(vx, pixel_of(vx, vy, r, c) % 64) == c,
        forall|p: int|
            0 <= p < 2048 && sprite_row(vy, #[trigger] (p / 64)) == r && sprite_col(vx, p % 64)
                == c ==> p == pixel_of(vx, vy, r, c),
{
    let row = (vy + r) % 32;
    let col = (vx + c) % 64;
    let i = row * 64 + col;
    assert(0 <= row < 32 && 0 <= col < 64);
    assert(i / 64 == row && i % 64 == col && 0 <= i < 2048) by (nonlinear_arith)
        requires
            0 <= row < 32,
            0 <= col < 64,
            i == row * 64 + col,
    ;
    lemma_wrapped_offset(vy as int, row, r, 32);
    lemma_wrapped_offset(vx as int, col, c, 64);
    assert forall|p: int|
        0 <= p < 2048 && sprite_row(vy, #[trigger] (p / 64)) == r && sprite_col(vx, p % 64)
            == c implies p == i by {
        assert(p == (p / 64) * 64 + p % 64 && 0 <= p / 64 < 32 && 0 <= p % 64 < 64)
            by (nonlinear_arith)
            requires
                0 <= p < 2048,
        ;
        lemma_wrapped_offset(vy as int, p / 64, r, 32);
        lemma_wrapped_offset(vx as int, p % 64, c, 64);
    }
}

/// Flipping a pixel that is 0 or 1 leaves it 0 or 1.
proof fn lemma_flip_pixel(v: u8)
    requires
        v <= 1,
    ensures
        v ^ 1 <= 1,
        (v ^ 1 == 1) == (v == 0),
{
    assert(v <= 1 ==> (v ^ 1) <= 1 && ((v ^ 1 == 1) == (v == 0))) by (bit_vector);
}

impl Machine {
    /// XORs the `h`-row sprite at idx onto the screen with its top left corner at
    /// `(VX, VY)`, wrapping at the edges; VF tells whether a lit pixel was hit.
    pub(crate) fn draw_sprite(&mut self, x: u8, y: u8, h: u8)
        requires
            old(self).wf(),
            x < 16,
            y < 16,
            h < 16,
            h == 0 || old(self).idx + h <= 4096,
        ensures
            final(self)@ == (MachineState {
                screen: drawn_screen(old(self)@, old(self)@.reg(x), old(self)@.reg(y), h),
                ..old(self)@
            }).with_reg(
                15,
                flag(draw_collides(old(self)@, old(self)@.reg(x), old(self)@.reg(y), h)),
            ),
    {
        let ghost s = self@;
        let vx = self.register_get(x);
        let vy = self.register_get(y);
        let mut collision = false;
        let mut r: u8 = 0;
        assert(self@.screen =~= drawn_before(s, vx, vy, h, 0, 0));
        while r < h
            invariant
                s == old(self)@,
                s.wf(),
                vx == s.reg(x),
                vy == s.reg(y),
                h < 16,
                h == 0 || s.idx + h <= 4096,
                r <= h,
                self@ == (MachineState { screen: drawn_before(s, vx, vy, h, r as int, 0), ..s }),
                collision == collides_before(s, vx, vy, h, r as int, 0),
            decreases h - r,
        {
            let byte = self.memory_get(self.idx + r as u16);
            let mut c: u8 = 0;
            while c < 8
                invariant
                    s == old(self)@,
                    s.wf(),
                    vx == s.reg(x),
                    vy == s.reg(y),
                    h < 16,
                    s.idx + h <= 4096,
                    r < h,
                    c <= 8,
                    byte == s.memory[s.idx + r],
                    self@ == (MachineState {
                        screen: drawn_before(s, vx, vy, h, r as int, c as int),
                        ..s
                    }),
                    collision == collides_before(s, vx, vy, h, r as int, c as int),
                decreases 8 - c,
            {
                proof {
                    lemma_pixel_of(vx, vy, r as int, c as int);
                }
                let row = (vy as usize + r as usize) % 32;
                let col = (vx as usize + c as usize) % 64;
                let i = row * 64 + col;
                assert(i == pixel_of(vx, vy, r as int, c as int));
                let ghost before = self@.screen;
                if byte & (0x80u8 >> c) != 0 {
                    assert(sprite_covers(s, vx, vy, h, i as int));
                    assert(!covered_before(s, vx, vy, h, i as int, r as int, c as int));
                    assert(self.screen[i as int] == s.screen[i as int]);
                    assert(covered_before(s, vx, vy, h, i as int, r as int, c + 1));
                    proof {
                        lemma_flip_pixel(s.screen[i as int]);
                    }
                    if self.screen[i] == 1 {
                        collision = true;
                    }
                    self.screen[i] = self.screen[i] ^ 1;
                } else {
                    assert(!sprite_covers(s, vx, vy, h, i as int));
                }
                c = c + 1;
                assert(self@.screen =~= drawn_before(s, vx, vy, h, r as int, c as int));
                assert(collision == collides_before(s, vx, vy, h, r as int, c as int)) by {
                    if collides_before(s, vx, vy, h, r as int, c as int) {
                        let p = choose|p: int|
                            0 <= p < 2048 && #[trigger] covered_before(
                                s,
                                vx,
                                vy,
                                h,
                                p,
                                r as int,
                                c as int,
                            ) && s.screen[p] == 1;
                        if p != i {
                            assert(covered_before(s, vx, vy, h, p, r as int, (c - 1) as int));
                        }
                    }
                    if collides_before(s, vx, vy, h, r as int, (c - 1) as int) {
                        let p = choose|p: int|
                            0 <= p < 2048 && #[trigger] covered_before(
                                s,
                                vx,
                                vy,
                                h,
                                p,
                                r as int,
                                (c - 1) as int,
                            ) && s.screen[p] == 1;
                        assert(covered_before(s, vx, vy, h, p, r as int, c as int));
                    }
                }
            }
            r = r + 1;
            assert(self@.screen =~= drawn_before(s, vx, vy, h, r as int, 0));
            assert(collision == collides_before(s, vx, vy, h, r as int, 0)) by {
                if collides_before(s, vx, vy, h, r as int, 0) {
                    let p = choose|p: int|
                        0 <= p < 2048 && #[trigger] covered_before(s, vx, vy, h, p, r as int, 0)
                            && s.screen[p] == 1;
                    assert(covered_before(s, vx, vy, h, p, (r - 1) as int, 8));
                }
                if collides_before(s, vx, vy, h, (r - 1) as int, 8) {
                    let p = choose|p: int|
                        0 <= p < 2048 && #[trigger] covered_before(
                            s,
                            vx,
                            vy,
                            h,
                            p,
                            (r - 1) as int,
                            8,
                        ) && s.screen[p] == 1;
                    assert(covered_before(s, vx, vy, h, p, r as int, 0));
                }
            }
        }
        assert(self@.screen =~= drawn_screen(s, vx, vy, h));
        assert(collision == draw_collides(s, vx, vy, h)) by {
            if collision {
                let p = choose|p: int|
                    0 <= p < 2048 && #[trigger] covered_before(s, vx, vy, h, p, h as int, 0)
                        && s.screen[p] == 1;
                assert(sprite_covers(s, vx, vy, h, p));
            }
            if draw_collides(s, vx, vy, h) {
                let p = choose|p: int|
                    0 <= p < 2048 && #[trigger] sprite_covers(s, vx, vy, h, p) && s.screen[p]
                        == 1;
                assert(covered_before(s, vx, vy, h, p, h as int, 0));
            }
        }
        if collision {
            self.carry_on();
        } else {
            self.carry_off();
        }
    }
}

/// Drawing keeps every pixel 0 or 1.
pub(crate) proof fn lemma_drawn_screen_wf(s: MachineState, vx: u8, vy: u8, h: u8)
    requires
        s.wf(),
    ensures
        screen_wf(drawn_screen(s, vx, vy, h)),
{
    assert forall|p: int| 0 <= p < 2048 implies #[trigger] drawn_screen(s, vx, vy, h)[p] <= 1 by {
        lemma_flip_pixel(s.screen[p]);
    }
}

} // verus!
