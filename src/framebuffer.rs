//! A full-frame buffer in the controller's RAM layout: one bit per pixel, rows of
//! 25 bytes, the leftmost pixel in the most significant bit, 1 for white.
use crate::display::{Display, FRAME_BYTES, Step, ops, rect_of, state_after};
use crate::geometry::{HEIGHT, WIDTH};
use vstd::prelude::*;

verus! {

/// Whether `(x, y)` is a pixel of the panel.
pub open spec fn on_panel(x: int, y: int) -> bool {
    0 <= x < WIDTH && 0 <= y < HEIGHT
}

/// The byte that holds pixel `(x, y)`.
pub open spec fn byte_index(x: int, y: int) -> int {
    x / 8 + y * (WIDTH / 8) as int
}

/// The bit of that byte that holds pixel `(x, y)`, counted from the least significant.
pub open spec fn bit_index(x: int) -> int {
    7 - x % 8
}

/// Whether pixel `(x, y)` of `bytes` is white.
pub open spec fn is_white(bytes: Seq<u8>, x: int, y: int) -> bool {
    (bytes[byte_index(x, y)] >> (bit_index(x) as u8)) & 1u8 == 1u8
}

pub struct Framebuffer {
    framebuffer: [u8; FRAME_BYTES],
}

impl View for Framebuffer {
    type V = Seq<u8>;

    closed spec fn view(&self) -> Seq<u8> {
        self.framebuffer@
    }
}

proof fn lemma_bit_set_clear(b: u8, k: u8, j: u8)
    requires
        k < 8,
        j < 8,
    ensures
        ((b | (1u8 << k)) >> k) & 1u8 == 1u8,
        ((b & !(1u8 << k)) >> k) & 1u8 == 0u8,
        j != k ==> ((b | (1u8 << k)) >> j) & 1u8 == (b >> j) & 1u8,
        j != k ==> ((b & !(1u8 << k)) >> j) & 1u8 == (b >> j) & 1u8,
{
    assert(((b | (1u8 << k)) >> k) & 1u8 == 1u8) by (bit_vector)
        requires
            k < 8,
    ;
    assert(((b & !(1u8 << k)) >> k) & 1u8 == 0u8) by (bit_vector)
        requires
            k < 8,
    ;
    assert(j != k ==> ((b | (1u8 << k)) >> j) & 1u8 == (b >> j) & 1u8) by (bit_vector)
        requires
            k < 8,
            j < 8,
    ;
    assert(j != k ==> ((b & !(1u8 << k)) >> j) & 1u8 == (b >> j) & 1u8) by (bit_vector)
        requires
            k < 8,
            j < 8,
    ;
}

/// Distinct pixels of the panel either sit in distinct bytes or in distinct bits of one.
proof fn lemma_pixels_apart(x: int, y: int, px: int, py: int)
    requires
        on_panel(x, y),
        on_panel(px, py),
        x != px || y != py,
    ensures
        byte_index(x, y) != byte_index(px, py) || bit_index(x) != bit_index(px),
{
    if byte_index(x, y) == byte_index(px, py) {
        assert(x / 8 + y * 25 == px / 8 + py * 25);
        assert(0 <= x / 8 < 25 && 0 <= px / 8 < 25);
        assert(y == py) by (nonlinear_arith)
            requires
                x / 8 + y * 25 == px / 8 + py * 25,
                0 <= x / 8 < 25,
                0 <= px / 8 < 25,
        ;
        assert(x / 8 == px / 8);
        assert(x % 8 != px % 8);
    }
}

proof fn lemma_pixel_in_frame(x: int, y: int)
    requires
        on_panel(x, y),
    ensures
        0 <= byte_index(x, y) < FRAME_BYTES,
        0 <= bit_index(x) < 8,
{
    assert(0 <= byte_index(x, y) < FRAME_BYTES) by (nonlinear_arith)
        requires
            0 <= x < 200,
            0 <= y < 200,
            byte_index(x, y) == x / 8 + y * 25,
    ;
}

impl Framebuffer {
    /// An all-white frame.
    pub fn new() -> (r: Framebuffer)
        ensures
            r@ == Seq::new(FRAME_BYTES as nat, |i: int| 0xFFu8),
    {
        let framebuffer = [0xFFu8; FRAME_BYTES];
        proof {
            broadcast use vstd::array::group_array_axioms;

            assert(framebuffer@ =~= Seq::new(FRAME_BYTES as nat, |i: int| 0xFFu8));
        }
        Framebuffer { framebuffer }
    }

    /// Always a full frame.
    pub fn len(&self) -> (r: usize)
        ensures
            r == self@.len(),
            r == FRAME_BYTES,
    {
        proof {
            broadcast use vstd::array::group_array_axioms;

        }
        FRAME_BYTES
    }

    /// The frame's bytes, as the controller's RAM takes them.
    pub fn as_bytes(&self) -> (r: &[u8])
        ensures
            r@ == self@,
    {
        self.framebuffer.as_slice()
    }

    /// Makes pixel `(x, y)` white or black; a pixel off the panel is dropped.
    pub fn set_pixel(&mut self, x: i32, y: i32, white: bool)
        ensures
            final(self)@.len() == FRAME_BYTES,
            !on_panel(x as int, y as int) ==> final(self)@ == old(self)@,
            on_panel(x as int, y as int) ==> is_white(final(self)@, x as int, y as int) == white,
            forall|px: int, py: int|
                on_panel(px, py) && (px != x || py != y) ==> is_white(final(self)@, px, py)
                    == is_white(old(self)@, px, py),
    {
        if x < 0 || x >= WIDTH as i32 || y < 0 || y >= HEIGHT as i32 {
            return ;
        }
        let xu = x as usize;
        let yu = y as usize;
        let index = xu / 8 + yu * WIDTH / 8;
        assert(index == byte_index(x as int, y as int)) by (nonlinear_arith)
            requires
                index == xu / 8 + yu * 200 / 8,
                xu == x,
                yu == y,
                0 <= yu < 200,
        ;
        let bit = (7 - xu % 8) as u8;
        proof {
            lemma_pixel_in_frame(x as int, y as int);
        }
        proof {
            broadcast use vstd::array::group_array_axioms;

        }
        let byte = self.framebuffer[index];
        let updated = if white {
            byte | (1u8 << bit)
        } else {
            byte & !(1u8 << bit)
        };
        self.framebuffer[index] = updated;
        proof {
            lemma_bit_set_clear(byte, bit, bit);
            assert forall|px: int, py: int|
                on_panel(px, py) && (px != x || py != y) implies is_white(self@, px, py)
                == is_white(old(self)@, px, py) by {
                lemma_pixels_apart(x as int, y as int, px, py);
                lemma_pixel_in_frame(px, py);
                if byte_index(px, py) == index {
                    lemma_bit_set_clear(byte, bit, bit_index(px) as u8);
                }
            }
        }
    }

    /// Shows the whole frame on the panel.
    pub fn flush(&self, display: &Display) -> (plan: Vec<Step>)
        ensures
            ops(plan@) == display.draw_image_ops(rect_of(0, 0, 200, 200)).0,
            state_after(*display, ops(plan@)) == display.draw_image_ops(rect_of(0, 0, 200, 200)).1,
    {
        display.draw_image(0, 0, 200, 200)
    }
}

} // verus!
