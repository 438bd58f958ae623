//! A box that bounces about the window: the state the window loop advances
//! with every round of input.

use vstd::prelude::*;

verus! {

/// The width of the window, in pixels.
pub const WIDTH: u32 = 512;

/// The height of the window, in pixels.
pub const HEIGHT: u32 = 512;

/// The side of the box, in pixels.
pub const BOX_SIZE: i16 = 64;

/// The colour of the box, as red, green, blue and alpha.
pub open spec fn box_rgba() -> Seq<u8> {
    seq![0x5eu8, 0x48u8, 0xe8u8, 0xffu8]
}

/// The colour around the box, as red, green, blue and alpha.
pub open spec fn backdrop_rgba() -> Seq<u8> {
    seq![0x48u8, 0xb2u8, 0xe8u8, 0xffu8]
}

/// Where a coordinate of the box goes in one step: its velocity turns round
/// at either edge, then carries it on.
pub open spec fn stepped(at: i16, velocity: i16, extent: int) -> (int, int) {
    let turned = if at <= 0 || at + BOX_SIZE > extent {
        -velocity
    } else {
        velocity as int
    };
    (at + turned, turned)
}

/// Whether a coordinate and its velocity are such as the box can reach from
/// inside the window: one pixel a step, heading inward at either edge.
pub open spec fn in_course(at: i16, velocity: i16, extent: int) -> bool {
    &&& velocity == 1 || velocity == -1
    &&& 0 <= at <= extent - BOX_SIZE + 1
    &&& at == 0 ==> velocity == -1
    &&& at == extent - BOX_SIZE + 1 ==> velocity == 1
}

pub struct World {
    box_x: i16,
    box_y: i16,
    velocity_x: i16,
    velocity_y: i16,
}

impl World {
    pub closed spec fn position(&self) -> (i16, i16) {
        (self.box_x, self.box_y)
    }

    pub closed spec fn velocity(&self) -> (i16, i16) {
        (self.velocity_x, self.velocity_y)
    }

    /// Every world keeps its box on course.
    #[verifier::type_invariant]
    pub closed spec fn well_formed(&self) -> bool {
        &&& in_course(self.box_x, self.velocity_x, WIDTH as int)
        &&& in_course(self.box_y, self.velocity_y, HEIGHT as int)
    }

    /// Whether the pixel at `(x, y)` lies inside the box.
    pub open spec fn covers(&self, x: int, y: int) -> bool {
        &&& self.position().0 <= x < self.position().0 + BOX_SIZE
        &&& self.position().1 <= y < self.position().1 + BOX_SIZE
    }

    /// A world whose box sets out near the upper left corner, heading down
    /// and to the right.
    pub fn new() -> (out: World)
        ensures
            out.position() == (24i16, 16i16),
            out.velocity() == (1i16, 1i16),
    {
        World { box_x: 24, box_y: 16, velocity_x: 1, velocity_y: 1 }
    }

    /// Where the box is: never farther out of the window than a pixel.
    pub fn box_position(&self) -> (out: (i16, i16))
        ensures
            out == self.position(),
            0 <= out.0 <= WIDTH - BOX_SIZE + 1,
            0 <= out.1 <= HEIGHT - BOX_SIZE + 1,
    {
        proof {
            use_type_invariant(self);
        }
        (self.box_x, self.box_y)
    }

    /// How the box moves: a pixel a step, either way.
    pub fn box_velocity(&self) -> (out: (i16, i16))
        ensures
            out == self.velocity(),
            out.0 == 1 || out.0 == -1,
            out.1 == 1 || out.1 == -1,
    {
        proof {
            use_type_invariant(self);
        }
        (self.velocity_x, self.velocity_y)
    }

    /// Moves the box one step, turning it round at the window's edges.
    pub fn update(&mut self)
        ensures
            (final(self).position().0 as int, final(self).velocity().0 as int) == stepped(
                old(self).position().0,
                old(self).velocity().0,
                WIDTH as int,
            ),
            (final(self).position().1 as int, final(self).velocity().1 as int) == stepped(
                old(self).position().1,
                old(self).velocity().1,
                HEIGHT as int,
            ),
    {
        proof {
            use_type_invariant(&*self);
        }
        let mut velocity_x: i16 = self.velocity_x;
        let mut velocity_y: i16 = self.velocity_y;
        if self.box_x <= 0 || self.box_x + BOX_SIZE > WIDTH as i16 {
            velocity_x = -velocity_x;
        }
        if self.box_y <= 0 || self.box_y + BOX_SIZE > HEIGHT as i16 {
            velocity_y = -velocity_y;
        }
        *self = World {
            box_x: self.box_x + velocity_x,
            box_y: self.box_y + velocity_y,
            velocity_x,
            velocity_y,
        };
    }

    /// The byte at index `j` of a frame that shows this world, four bytes to
    /// the pixel, row after row of `WIDTH` pixels: the box in its colour, the
    /// rest in the backdrop's.
    pub open spec fn painted(&self, j: int) -> u8 {
        let pixel = j / 4;
        if self.covers(pixel % (WIDTH as int), pixel / (WIDTH as int)) {
            box_rgba()[j % 4]
        } else {
            backdrop_rgba()[j % 4]
        }
    }

    /// Paints the world into `frame`. Bytes past the last whole pixel stay
    /// as they are.
    pub fn draw(&self, frame: &mut [u8])
        ensures
            final(frame)@.len() == old(frame)@.len(),
            forall|j: int|
                0 <= j < old(frame)@.len() / 4 * 4 ==> #[trigger] final(frame)@[j] == self.painted(j),
            forall|j: int|
                old(frame)@.len() / 4 * 4 <= j < old(frame)@.len() ==> #[trigger] final(frame)@[j]
                    == old(frame)@[j],
    {
        let pixels: usize = frame.len() / 4;
        let mut i: usize = 0;
        while i < pixels
            invariant
                0 <= i <= pixels,
                pixels == old(frame)@.len() / 4,
                frame@.len() == old(frame)@.len(),
                4 * pixels <= frame@.len() <= usize::MAX,
                forall|j: int| 0 <= j < 4 * i ==> #[trigger] frame@[j] == self.painted(j),
                forall|j: int| 4 * i <= j < frame@.len() ==> #[trigger] frame@[j] == old(frame)@[j],
            decreases pixels - i,
        {
            let x: u64 = (i % WIDTH as usize) as u64;
            let y: u64 = (i / WIDTH as usize) as u64;
            let inside_the_box = self.box_x as i64 <= x as i64 && (x as i64) < self.box_x as i64
                + BOX_SIZE as i64 && self.box_y as i64 <= y as i64 && (y as i64) < self.box_y as i64
                + BOX_SIZE as i64;
            if inside_the_box {
                frame[4 * i] = 0x5e;
                frame[4 * i + 1] = 0x48;
                frame[4 * i + 2] = 0xe8;
                frame[4 * i + 3] = 0xff;
            } else {
                frame[4 * i] = 0x48;
                frame[4 * i + 1] = 0xb2;
                frame[4 * i + 2] = 0xe8;
                frame[4 * i + 3] = 0xff;
            }
            i = i + 1;
        }
    }
}

} // verus!
