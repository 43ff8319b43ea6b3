//! Frames: the world drawn as a grid of colour indices, row by row.
use crate::objects::{Fixed, Kinetic};
use crate::scalar::Scalar;
use crate::simulation::{Simulation, World};
use crate::vec2::Vec2;
use vstd::prelude::*;

verus! {

/// The colour index of a fixed body.
pub const OBSTACLE: u8 = 192;

/// The colour index of empty space.
pub const BACKGROUND: u8 = 0;

/// `v`, or zero where it is negative.
pub open spec fn not_below_zero(v: int) -> nat {
    if v < 0 {
        0
    } else {
        v as nat
    }
}

/// The number of pixels along a side of the world that reaches to `bound`:
/// its whole part, held between 0 and 65535.
pub open spec fn side_pixels(bound: Scalar) -> nat {
    if bound.whole_part() > 65535 {
        65535
    } else {
        not_below_zero(bound.whole_part())
    }
}

/// The first pixel of a box that begins at `position`.
pub open spec fn first_pixel(position: Scalar) -> nat {
    not_below_zero(position.nearest_whole())
}

/// The number of pixels of a box of extent `size`.
pub open spec fn pixel_count(size: Scalar) -> nat {
    not_below_zero(size.whole_part())
}

/// The place in a frame of `width` pixels a row of the pixel in column `x`
/// of row `y`. A column beyond the width runs on into the next rows.
pub open spec fn place(width: nat, x: int, y: int) -> int {
    width * y + x
}

/// Whether column `x` of row `y` lies in the given columns and rows.
pub open spec fn within(xa: int, xb: int, ya: int, yb: int, x: int, y: int) -> bool {
    xa <= x < xb && ya <= y < yb
}

/// Whether some pixel in the given columns and rows has the place `index`.
pub open spec fn reached(xa: int, xb: int, ya: int, yb: int, width: nat, index: int) -> bool {
    exists|x: int, y: int| #[trigger] within(xa, xb, ya, yb, x, y) && place(width, x, y) == index
}

/// Whether the box with the given corner and extent is drawn at the place
/// `index` of a frame of `width` pixels a row.
pub open spec fn covers(position: Vec2, size: Vec2, width: nat, index: int) -> bool {
    reached(
        first_pixel(position.x) as int,
        (first_pixel(position.x) + pixel_count(size.x)) as int,
        first_pixel(position.y) as int,
        (first_pixel(position.y) + pixel_count(size.y)) as int,
        width,
        index,
    )
}

/// The colour at `index` once the fixed bodies are drawn.
pub open spec fn obstacle_layer(fixed: Seq<Fixed>, width: nat, index: int) -> u8
    decreases fixed.len(),
{
    if fixed.len() == 0 {
        BACKGROUND
    } else if covers(fixed.last().position, fixed.last().size, width, index) {
        OBSTACLE
    } else {
        obstacle_layer(fixed.drop_last(), width, index)
    }
}

/// The colour at `index` once the moving bodies are drawn over `base`, each
/// in the colour at its own index in `colors`. A later body hides an
/// earlier one.
pub open spec fn body_layer(
    kinetic: Seq<Kinetic>,
    colors: Seq<u8>,
    width: nat,
    index: int,
    base: u8,
) -> u8
    decreases kinetic.len(),
{
    if kinetic.len() == 0 {
        base
    } else if covers(kinetic.last().position, kinetic.last().size, width, index) {
        colors[kinetic.len() - 1]
    } else {
        body_layer(kinetic.drop_last(), colors, width, index, base)
    }
}

/// Whether the box is drawn nowhere beyond a frame of `len` places.
pub open spec fn fits(position: Vec2, size: Vec2, width: nat, len: nat) -> bool {
    forall|index: int| #[trigger] covers(position, size, width, index) ==> index < len
}

/// Whether the box is drawn anywhere in a frame of `len` places.
pub open spec fn shows(position: Vec2, size: Vec2, width: nat, len: nat) -> bool {
    exists|index: int| 0 <= index < len && #[trigger] covers(position, size, width, index)
}

/// Whether the world can be drawn: every fixed body fits into the frame,
/// and every moving body that shows in it has a colour.
pub open spec fn drawable(world: World, colors: Seq<u8>) -> bool {
    let width = side_pixels(world.world_bounds.x);
    let len = width * side_pixels(world.world_bounds.y);
    &&& forall|i: int|
        0 <= i < world.fixed.len() ==> fits(
            (#[trigger] world.fixed[i]).position,
            world.fixed[i].size,
            width,
            len,
        )
    &&& forall|j: int|
        0 <= j < world.kinetic.len() && shows(
            (#[trigger] world.kinetic[j]).position,
            world.kinetic[j].size,
            width,
            len,
        ) ==> j < colors.len()
}

/// The frame of a world that can be drawn: as many rows as the world is
/// high, each as many pixels as it is wide; the fixed bodies on the
/// background, and the moving bodies over them.
pub open spec fn frame(world: World, colors: Seq<u8>) -> Seq<u8> {
    let width = side_pixels(world.world_bounds.x);
    Seq::new(
        width * side_pixels(world.world_bounds.y),
        |index: int|
            body_layer(
                world.kinetic,
                colors,
                width,
                index,
                obstacle_layer(world.fixed, width, index),
            ),
    )
}

/// The greatest first pixel and the greatest pixel count of any box.
pub open spec fn pixel_limit() -> nat {
    9_223_372_036_855
}

/// The number of pixels along a side of the world that reaches to `bound`.
pub fn side(bound: Scalar) -> (r: u16)
    ensures
        r == side_pixels(bound),
{
    let whole = bound.trunc();
    if whole > 65535 {
        65535
    } else if whole < 0 {
        0
    } else {
        whole as u16
    }
}

fn first(position: Scalar) -> (r: u64)
    ensures
        r == first_pixel(position),
        r <= pixel_limit(),
{
    let nearest = position.round();
    if nearest < 0 {
        0
    } else {
        nearest as u64
    }
}

fn count(size: Scalar) -> (r: u64)
    ensures
        r == pixel_count(size),
        r <= pixel_limit(),
{
    let whole = size.trunc();
    if whole < 0 {
        0
    } else {
        whole as u64
    }
}

proof fn lemma_place_bounds(width: nat, x: int, y: int, xb: int, yb: int)
    requires
        0 <= x < xb,
        0 <= y < yb,
    ensures
        0 <= place(width, x, y) <= place(width, xb - 1, yb - 1),
        place(width, x, y) <= width * yb + xb,
{
    assert(0 <= width * y <= width * (yb - 1)) by (nonlinear_arith)
        requires
            0 <= y <= yb - 1,
            width >= 0,
    ;
    assert(width * (yb - 1) <= width * yb) by (nonlinear_arith)
        requires
            width >= 0,
    ;
}

proof fn lemma_place_from(width: nat, x: int, y: int, xa: int, ya: int)
    requires
        0 <= xa <= x,
        0 <= ya <= y,
    ensures
        place(width, xa, ya) <= place(width, x, y),
{
    assert(width * ya <= width * y) by (nonlinear_arith)
        requires
            0 <= ya <= y,
            width >= 0,
    ;
}

/// Draws a box into `image` in one colour. Places beyond the image are left
/// out.
fn paint(image: &mut Vec<u8>, width: u16, position: Vec2, size: Vec2, color: u8)
    ensures
        final(image)@.len() == old(image)@.len(),
        forall|index: int|
            0 <= index < old(image)@.len() ==> final(image)@[index] == if covers(
                position,
                size,
                width as nat,
                index,
            ) {
                color
            } else {
                old(image)@[index]
            },
{
    let xa = first(position.x);
    let xb = xa + count(size.x);
    let ya = first(position.y);
    let yb = ya + count(size.y);
    let ghost w = width as nat;
    let mut x = xa;
    while x < xb
        invariant
            xa <= x <= xb <= 2 * pixel_limit(),
            ya <= yb <= 2 * pixel_limit(),
            w == width,
            image@.len() == old(image)@.len(),
            forall|index: int|
                0 <= index < image@.len() ==> image@[index] == if reached(
                    xa as int,
                    x as int,
                    ya as int,
                    yb as int,
                    w,
                    index,
                ) {
                    color
                } else {
                    old(image)@[index]
                },
        decreases xb - x,
    {
        let ghost columns = image@;
        let mut y = ya;
        while y < yb
            invariant
                xa <= x < xb <= 2 * pixel_limit(),
                ya <= y <= yb <= 2 * pixel_limit(),
                w == width,
                image@.len() == columns.len(),
                forall|index: int|
                    0 <= index < image@.len() ==> image@[index] == if reached(
                        x as int,
                        x + 1,
                        ya as int,
                        y as int,
                        w,
                        index,
                    ) {
                        color
                    } else {
                        columns[index]
                    },
            decreases yb - y,
        {
            proof {
                lemma_place_bounds(w, x as int, y as int, xb as int, yb as int);
                assert(w * (yb as int) <= 65535 * (2 * pixel_limit())) by (nonlinear_arith)
                    requires
                        0 <= w <= 65535,
                        0 <= yb <= 2 * pixel_limit(),
                ;
            }
            let ghost rows = image@;
            let at: u64 = width as u64 * y + x;
            if at < image.len() as u64 {
                image.set(at as usize, color);
            }
            proof {
                assert forall|index: int| 0 <= index < image@.len() implies image@[index]
                    == if reached(x as int, x + 1, ya as int, y + 1, w, index) {
                    color
                } else {
                    columns[index]
                } by {
                    if index == at {
                        assert(within(x as int, x + 1, ya as int, y + 1, x as int, y as int));
                    } else if reached(x as int, x + 1, ya as int, y + 1, w, index) {
                        let (px, py) = choose|px: int, py: int| #[trigger]
                            within(x as int, x + 1, ya as int, y + 1, px, py) && place(w, px, py)
                                == index;
                        assert(within(x as int, x + 1, ya as int, y as int, px, py));
                    } else if reached(x as int, x + 1, ya as int, y as int, w, index) {
                        let (px, py) = choose|px: int, py: int| #[trigger]
                            within(x as int, x + 1, ya as int, y as int, px, py) && place(w, px, py)
                                == index;
                        assert(within(x as int, x + 1, ya as int, y + 1, px, py));
                    }
                }
            }
            y += 1;
        }
        proof {
            assert forall|index: int| 0 <= index < image@.len() implies image@[index]
                == if reached(xa as int, x + 1, ya as int, yb as int, w, index) {
                color
            } else {
                old(image)@[index]
            } by {
                if reached(xa as int, x + 1, ya as int, yb as int, w, index) {
                    let (px, py) = choose|px: int, py: int| #[trigger]
                        within(xa as int, x + 1, ya as int, yb as int, px, py) && place(w, px, py)
                            == index;
                    if px == x {
                        assert(within(x as int, x + 1, ya as int, yb as int, px, py));
                    } else {
                        assert(within(xa as int, x as int, ya as int, yb as int, px, py));
                    }
                } else {
                    if reached(x as int, x + 1, ya as int, yb as int, w, index) {
                        let (px, py) = choose|px: int, py: int| #[trigger]
                            within(x as int, x + 1, ya as int, yb as int, px, py) && place(
                                w,
                                px,
                                py,
                            ) == index;
                        assert(within(xa as int, x + 1, ya as int, yb as int, px, py));
                    }
                    if reached(xa as int, x as int, ya as int, yb as int, w, index) {
                        let (px, py) = choose|px: int, py: int| #[trigger]
                            within(xa as int, x as int, ya as int, yb as int, px, py) && place(
                                w,
                                px,
                                py,
                            ) == index;
                        assert(within(xa as int, x + 1, ya as int, yb as int, px, py));
                    }
                }
            }
        }
        x += 1;
    }
}

/// What a box that covers any pixel reaches: its first place, its last
/// place, and nothing before or behind them. A box that covers no pixel
/// reaches nothing.
proof fn lemma_reach(xa: int, xb: int, ya: int, yb: int, width: nat)
    requires
        0 <= xa,
        0 <= ya,
    ensures
        xa < xb && ya < yb ==> reached(xa, xb, ya, yb, width, place(width, xa, ya)) && reached(
            xa,
            xb,
            ya,
            yb,
            width,
            place(width, xb - 1, yb - 1),
        ),
        forall|index: int| #[trigger]
            reached(xa, xb, ya, yb, width, index) ==> xa < xb && ya < yb && place(width, xa, ya)
                <= index <= place(width, xb - 1, yb - 1),
{
    if xa < xb && ya < yb {
        assert(within(xa, xb, ya, yb, xa, ya));
        assert(within(xa, xb, ya, yb, xb - 1, yb - 1));
    }
    assert forall|index: int| #[trigger] reached(xa, xb, ya, yb, width, index) implies xa < xb
        && ya < yb && place(width, xa, ya) <= index <= place(width, xb - 1, yb - 1) by {
        let (px, py) = choose|px: int, py: int| #[trigger]
            within(xa, xb, ya, yb, px, py) && place(width, px, py) == index;
        lemma_place_bounds(width, px, py, xb, yb);
        lemma_place_from(width, px, py, xa, ya);
    }
}

fn box_fits(position: Vec2, size: Vec2, width: u16, len: usize) -> (r: bool)
    ensures
        r == fits(position, size, width as nat, len as nat),
{
    let xa = first(position.x);
    let across = count(size.x);
    let ya = first(position.y);
    let down = count(size.y);
    proof {
        lemma_reach(xa as int, xa + across, ya as int, ya + down, width as nat);
    }
    if across == 0 || down == 0 {
        proof {
            assert forall|index: int| #[trigger]
                covers(position, size, width as nat, index) implies false by {
                assert(reached(xa as int, xa + across, ya as int, ya + down, width as nat, index));
            }
        }
        return true;
    }
    proof {
        assert(width * (ya + down - 1) <= 65535 * (2 * pixel_limit())) by (nonlinear_arith)
            requires
                0 <= width <= 65535,
                0 <= ya + down - 1 <= 2 * pixel_limit(),
        ;
    }
    let last: u64 = width as u64 * (ya + down - 1) + (xa + across - 1);
    proof {
        assert(covers(position, size, width as nat, last as int));
        assert forall|index: int| #[trigger]
            covers(position, size, width as nat, index) implies index <= last by {
            assert(reached(xa as int, xa + across, ya as int, ya + down, width as nat, index));
        }
    }
    last < len as u64
}

fn box_shows(position: Vec2, size: Vec2, width: u16, len: usize) -> (r: bool)
    ensures
        r == shows(position, size, width as nat, len as nat),
{
    let xa = first(position.x);
    let across = count(size.x);
    let ya = first(position.y);
    let down = count(size.y);
    proof {
        lemma_reach(xa as int, xa + across, ya as int, ya + down, width as nat);
    }
    if across == 0 || down == 0 {
        proof {
            assert forall|index: int| #[trigger]
                covers(position, size, width as nat, index) implies false by {
                assert(reached(xa as int, xa + across, ya as int, ya + down, width as nat, index));
            }
        }
        return false;
    }
    proof {
        assert(0 <= width * ya <= 65535 * pixel_limit()) by (nonlinear_arith)
            requires
                0 <= width <= 65535,
                0 <= ya <= pixel_limit(),
        ;
    }
    let start: u64 = width as u64 * ya + xa;
    proof {
        assert(covers(position, size, width as nat, start as int));
        assert forall|index: int| #[trigger]
            covers(position, size, width as nat, index) implies start <= index by {
            assert(reached(xa as int, xa + across, ya as int, ya + down, width as nat, index));
        }
    }
    start < len as u64
}

/// Draws the world: a frame where it can be drawn, and nothing where it
/// cannot.
pub fn make_frame(sim: &Simulation, cindicies: &[u8]) -> (r: Option<Vec<u8>>)
    ensures
        r.is_some() == drawable(sim@, cindicies@),
        r matches Some(image) ==> image@ == frame(sim@, cindicies@),
{
    let width = side(sim.world_bounds.x);
    let height = side(sim.world_bounds.y);
    proof {
        assert(width * height <= 65535 * 65535) by (nonlinear_arith)
            requires
                0 <= width <= 65535,
                0 <= height <= 65535,
        ;
    }
    let len: usize = width as usize * height as usize;
    let mut image: Vec<u8> = vec![BACKGROUND; len];
    let ghost w = width as nat;

    let mut at: usize = 0;
    while at < sim.fixed.len()
        invariant
            at <= sim.fixed.len(),
            w == width == side_pixels(sim.world_bounds.x),
            len == w * side_pixels(sim.world_bounds.y),
            image@.len() == len,
            forall|i: int|
                0 <= i < at ==> fits(
                    (#[trigger] sim.fixed@[i]).position,
                    sim.fixed@[i].size,
                    w,
                    len as nat,
                ),
            forall|index: int|
                0 <= index < len ==> image@[index] == obstacle_layer(
                    sim.fixed@.take(at as int),
                    w,
                    index,
                ),
        decreases sim.fixed.len() - at,
    {
        let fixed = &sim.fixed[at];
        if !box_fits(fixed.position, fixed.size, width, len) {
            proof {
                assert(sim@.fixed[at as int] == *fixed);
            }
            return None;
        }
        paint(&mut image, width, fixed.position, fixed.size, OBSTACLE);
        proof {
            assert(sim.fixed@.take(at + 1).drop_last() =~= sim.fixed@.take(at as int));
        }
        at += 1;
    }
    proof {
        assert(sim.fixed@.take(at as int) =~= sim.fixed@);
    }

    let mut at: usize = 0;
    while at < sim.kinetic.len()
        invariant
            at <= sim.kinetic.len(),
            w == width == side_pixels(sim.world_bounds.x),
            len == w * side_pixels(sim.world_bounds.y),
            image@.len() == len,
            forall|i: int|
                0 <= i < sim.fixed@.len() ==> fits(
                    (#[trigger] sim.fixed@[i]).position,
                    sim.fixed@[i].size,
                    w,
                    len as nat,
                ),
            forall|j: int|
                0 <= j < at && shows(
                    (#[trigger] sim.kinetic@[j]).position,
                    sim.kinetic@[j].size,
                    w,
                    len as nat,
                ) ==> j < cindicies@.len(),
            forall|index: int|
                0 <= index < len ==> image@[index] == body_layer(
                    sim.kinetic@.take(at as int),
                    cindicies@,
                    w,
                    index,
                    obstacle_layer(sim.fixed@, w, index),
                ),
        decreases sim.kinetic.len() - at,
    {
        let kinetic = &sim.kinetic[at];
        proof {
            assert(sim.kinetic@.take(at + 1).drop_last() =~= sim.kinetic@.take(at as int));
        }
        if box_shows(kinetic.position, kinetic.size, width, len) {
            if at >= cindicies.len() {
                proof {
                    assert(sim@.kinetic[at as int] == *kinetic);
                }
                return None;
            }
            paint(&mut image, width, kinetic.position, kinetic.size, cindicies[at]);
        }
        at += 1;
    }
    proof {
        assert(sim.kinetic@.take(at as int) =~= sim.kinetic@);
        assert(image@ =~= frame(sim@, cindicies@));
    }
    Some(image)
}

} // verus!
