//! The tray and window icon, drawn pixel by pixel on a 32 x 32 RGBA canvas.
use vstd::prelude::*;

verus! {

/// The icon's width and height in pixels.
pub const ICON_SIZE: usize = 32;

/// The canvas's length in bytes: four per pixel.
pub open spec fn canvas_len() -> nat {
    4096
}

/// Whether a pixel lies on the canvas.
pub open spec fn in_icon(x: int, y: int) -> bool {
    0 <= x < 32 && 0 <= y < 32
}

/// The position of a pixel's first byte.
pub open spec fn pixel_start(x: int, y: int) -> int {
    y * 128 + x * 4
}

/// The four bytes of a pixel.
pub open spec fn pixel(c: Seq<u8>, x: int, y: int) -> Seq<u8> {
    c.subrange(pixel_start(x, y), pixel_start(x, y) + 4)
}

/// The canvas with one pixel painted; a pixel off the canvas changes nothing.
pub open spec fn paint(c: Seq<u8>, x: int, y: int, color: Seq<u8>) -> Seq<u8> {
    if in_icon(x, y) {
        let p = pixel_start(x, y);
        c.update(p, color[0]).update(p + 1, color[1]).update(p + 2, color[2]).update(p + 3, color[3])
    } else {
        c
    }
}

/// Whether `next` is `prev` with the pixels that `inside` selects painted with `color`.
pub open spec fn painted_where(
    prev: Seq<u8>,
    next: Seq<u8>,
    color: Seq<u8>,
    inside: spec_fn(int, int) -> bool,
) -> bool {
    &&& next.len() == prev.len()
    &&& forall|x: int, y: int|
        #![trigger pixel(next, x, y)]
        in_icon(x, y) ==> pixel(next, x, y) == if inside(x, y) {
            color
        } else {
            pixel(prev, x, y)
        }
}

proof fn lemma_paint_pixels(c: Seq<u8>, x: int, y: int, color: Seq<u8>)
    requires
        c.len() == canvas_len(),
        color.len() == 4,
    ensures
        painted_where(c, paint(c, x, y, color), color, |px: int, py: int| px == x && py == y),
{
    let n = paint(c, x, y, color);
    assert forall|px: int, py: int| #![trigger pixel(n, px, py)] in_icon(px, py) implies pixel(n, px, py)
        == if px == x && py == y {
        color
    } else {
        pixel(c, px, py)
    } by {
        if px == x && py == y {
            assert(pixel(n, px, py) =~= color);
        } else {
            assert(pixel(n, px, py) =~= pixel(c, px, py));
        }
    }
}

proof fn lemma_compose(
    a: Seq<u8>,
    b: Seq<u8>,
    c: Seq<u8>,
    color: Seq<u8>,
    r1: spec_fn(int, int) -> bool,
    r2: spec_fn(int, int) -> bool,
    r: spec_fn(int, int) -> bool,
)
    requires
        painted_where(a, b, color, r1),
        painted_where(b, c, color, r2),
        forall|x: int, y: int| #[trigger] r(x, y) == (r1(x, y) || r2(x, y)),
    ensures
        painted_where(a, c, color, r),
{
    assert forall|x: int, y: int| #![trigger pixel(c, x, y)] in_icon(x, y) implies pixel(c, x, y)
        == if r(x, y) {
        color
    } else {
        pixel(a, x, y)
    } by {
        assert(pixel(b, x, y) == if r1(x, y) {
            color
        } else {
            pixel(a, x, y)
        });
        assert(r(x, y) == (r1(x, y) || r2(x, y)));
    }
}

proof fn lemma_nothing_painted(a: Seq<u8>, color: Seq<u8>, r: spec_fn(int, int) -> bool)
    requires
        forall|x: int, y: int| !#[trigger] r(x, y),
    ensures
        painted_where(a, a, color, r),
{
    assert forall|x: int, y: int| #![trigger pixel(a, x, y)] in_icon(x, y) implies pixel(a, x, y)
        == if r(x, y) {
        color
    } else {
        pixel(a, x, y)
    } by {
        assert(!r(x, y));
    }
}

/// Paints one pixel; a pixel off the canvas is left out.
pub fn set_pixel(rgba: &mut Vec<u8>, x: i32, y: i32, color: [u8; 4])
    requires
        old(rgba)@.len() == canvas_len(),
    ensures
        final(rgba)@ == paint(old(rgba)@, x as int, y as int, color@),
{
    if x < 0 || y < 0 || x >= 32 || y >= 32 {
        return;
    }
    let index = (y as usize) * 128 + (x as usize) * 4;
    rgba.set(index, color[0]);
    rgba.set(index + 1, color[1]);
    rgba.set(index + 2, color[2]);
    rgba.set(index + 3, color[3]);
}

/// Paints the pixels of the rectangle `[x, x + width) x [y, y + height)` that lie on the canvas.
pub fn fill_rect(rgba: &mut Vec<u8>, x: i32, y: i32, width: i32, height: i32, color: [u8; 4])
    requires
        old(rgba)@.len() == canvas_len(),
        i32::MIN <= x + width <= i32::MAX,
        i32::MIN <= y + height <= i32::MAX,
    ensures
        painted_where(
            old(rgba)@,
            final(rgba)@,
            color@,
            |px: int, py: int| x <= px < x + width && y <= py < y + height,
        ),
{
    let mut iy = y;
    proof {
        lemma_nothing_painted(
            old(rgba)@,
            color@,
            |px: int, py: int| x <= px < x + width && y <= py < y && py < y + height,
        );
    }
    while iy < y + height
        invariant
            rgba@.len() == canvas_len(),
            i32::MIN <= y + height <= i32::MAX,
            i32::MIN <= x + width <= i32::MAX,
            y <= iy,
            painted_where(
                old(rgba)@,
                rgba@,
                color@,
                |px: int, py: int| x <= px < x + width && y <= py < iy && py < y + height,
            ),
        decreases y + height - iy,
    {
        let mut ix = x;
        let ghost row_start = rgba@;
        proof {
            let iyi = iy as int;
            lemma_nothing_painted(
                row_start,
                color@,
                |px: int, py: int| x <= px < x && px < x + width && py == iyi,
            );
        }
        while ix < x + width
            invariant
                rgba@.len() == canvas_len(),
                i32::MIN <= x + width <= i32::MAX,
                y <= iy < y + height,
                x <= ix,
                painted_where(
                    row_start,
                    rgba@,
                    color@,
                    |px: int, py: int| x <= px < ix && px < x + width && py == iy,
                ),
            decreases x + width - ix,
        {
            let ghost before = rgba@;
            set_pixel(rgba, ix, iy, color);
            proof {
                lemma_paint_pixels(before, ix as int, iy as int, color@);
                let ixi = ix as int;
                let iyi = iy as int;
                lemma_compose(
                    row_start,
                    before,
                    rgba@,
                    color@,
                    |px: int, py: int| x <= px < ixi && px < x + width && py == iyi,
                    |px: int, py: int| px == ixi && py == iyi,
                    |px: int, py: int| x <= px < ixi + 1 && px < x + width && py == iyi,
                );
            }
            ix = ix + 1;
        }
        proof {
            let iyi = iy as int;
            lemma_compose(
                old(rgba)@,
                row_start,
                rgba@,
                color@,
                |px: int, py: int| x <= px < x + width && y <= py < iyi && py < y + height,
                |px: int, py: int| x <= px < ix && px < x + width && py == iyi,
                |px: int, py: int| x <= px < x + width && y <= py < iyi + 1 && py < y + height,
            );
        }
        iy = iy + 1;
    }
}

/// Whether a pixel lies in the disc of radius `r` around `(cx, cy)`.
pub open spec fn in_disc(px: int, py: int, cx: int, cy: int, r: int) -> bool {
    &&& cx - r <= px <= cx + r
    &&& cy - r <= py <= cy + r
    &&& (px - cx) * (px - cx) + (py - cy) * (py - cy) <= r * r
}

/// Paints the pixels of the disc of radius `radius` around `(center_x, center_y)`.
pub fn fill_circle(rgba: &mut Vec<u8>, center_x: i32, center_y: i32, radius: i32, color: [u8; 4])
    requires
        old(rgba)@.len() == canvas_len(),
        i32::MIN <= center_y - radius <= i32::MAX,
        i32::MIN <= center_y + radius <= i32::MAX,
        radius >= 0 ==> {
            &&& i32::MIN <= center_x - radius
            &&& center_x + radius <= i32::MAX
            &&& radius <= 0x7fff
        },
    ensures
        painted_where(
            old(rgba)@,
            final(rgba)@,
            color@,
            |px: int, py: int| in_disc(px, py, center_x as int, center_y as int, radius as int),
        ),
{
    let cx = center_x as i64;
    let cy = center_y as i64;
    let r = radius as i64;
    let mut y: i64 = cy - r;
    while y <= cy + r
        invariant
            rgba@.len() == canvas_len(),
            cx == center_x,
            cy == center_y,
            r == radius,
            i32::MIN <= center_y - radius <= i32::MAX,
            i32::MIN <= center_y + radius <= i32::MAX,
            radius >= 0 ==> {
                &&& i32::MIN <= center_x - radius
                &&& center_x + radius <= i32::MAX
                &&& radius <= 0x7fff
            },
            cy - r <= y,
            y <= cy + r + 1 || r < 0,
            painted_where(
                old(rgba)@,
                rgba@,
                color@,
                |px: int, py: int| py < y && in_disc(px, py, center_x as int, center_y as int, radius as int),
            ),
        decreases cy + r + 1 - y,
    {
        let mut x: i64 = cx - r;
        let ghost row_start = rgba@;
        while x <= cx + r
            invariant
                rgba@.len() == canvas_len(),
                cx == center_x,
                cy == center_y,
                r == radius,
                0 <= r <= 0x7fff,
                i32::MIN <= center_x - radius,
                center_x + radius <= i32::MAX,
                i32::MIN <= center_y - radius <= i32::MAX,
                i32::MIN <= center_y + radius <= i32::MAX,
                cy - r <= y <= cy + r,
                cx - r <= x <= cx + r + 1,
                painted_where(
                    row_start,
                    rgba@,
                    color@,
                    |px: int, py: int| px < x && py == y && in_disc(px, py, center_x as int, center_y as int, radius as int),
                ),
            decreases cx + r + 1 - x,
        {
            let dx = x - cx;
            let dy = y - cy;
            assert(0 <= dx * dx <= 0x4000_0000 && 0 <= dy * dy <= 0x4000_0000 && 0 <= r * r <= 0x4000_0000)
                by (nonlinear_arith)
                requires
                    -r <= dx <= r,
                    -r <= dy <= r,
                    0 <= r <= 0x7fff,
            ;
            let ghost before = rgba@;
            if dx * dx + dy * dy <= r * r {
                set_pixel(rgba, x as i32, y as i32, color);
                proof {
                    lemma_paint_pixels(before, x as int, y as int, color@);
                }
            }
            x = x + 1;
        }
        proof {
            let cur = rgba@;
            assert forall|px: int, py: int| #![trigger pixel(cur, px, py)] in_icon(px, py) implies pixel(
                cur,
                px,
                py,
            ) == if py < y + 1 && in_disc(px, py, center_x as int, center_y as int, radius as int) {
                color@
            } else {
                pixel(old(rgba)@, px, py)
            } by {
                if py == y && in_disc(px, py, center_x as int, center_y as int, radius as int) {
                    assert(px < x);
                }
            }
        }
        y = y + 1;
    }
}

/// The absolute value.
pub open spec fn iabs(v: int) -> int {
    if v < 0 {
        -v
    } else {
        v
    }
}

/// The unit step from `a` toward `b` (`-1` when they are equal, as the drawing code has it).
pub open spec fn step_toward(a: int, b: int) -> int {
    if a < b {
        1
    } else {
        -1
    }
}

/// The pixels that Bresenham's algorithm visits from `(x, y)` to `(x1, y1)`, given the error
/// term `err`, with at most `fuel` more steps.
pub open spec fn bresenham(
    x: int,
    y: int,
    x1: int,
    y1: int,
    dx: int,
    dy: int,
    sx: int,
    sy: int,
    err: int,
    fuel: nat,
) -> Seq<(int, int)>
    decreases fuel,
{
    if (x == x1 && y == y1) || fuel == 0 {
        seq![(x, y)]
    } else {
        let e2 = 2 * err;
        let err1 = if e2 >= dy {
            err + dy
        } else {
            err
        };
        let nx = if e2 >= dy {
            x + sx
        } else {
            x
        };
        let err2 = if e2 <= dx {
            err1 + dx
        } else {
            err1
        };
        let ny = if e2 <= dx {
            y + sy
        } else {
            y
        };
        seq![(x, y)] + bresenham(nx, ny, x1, y1, dx, dy, sx, sy, err2, (fuel - 1) as nat)
    }
}

/// The pixels of the line from `(x0, y0)` to `(x1, y1)`.
pub open spec fn line_points(x0: int, y0: int, x1: int, y1: int) -> Seq<(int, int)> {
    let dx = iabs(x1 - x0);
    let dy = -iabs(y1 - y0);
    bresenham(x0, y0, x1, y1, dx, dy, step_toward(x0, x1), step_toward(y0, y1), dx + dy, (dx - dy) as nat)
}

/// The canvas with the given pixels painted, in order.
pub open spec fn paint_points(c: Seq<u8>, pts: Seq<(int, int)>, color: Seq<u8>) -> Seq<u8>
    decreases pts.len(),
{
    if pts.len() == 0 {
        c
    } else {
        paint_points(paint(c, pts[0].0, pts[0].1, color), pts.drop_first(), color)
    }
}

/// The state of the line drawing is consistent: the error term matches the remaining
/// distances `a` and `b`, which never pass the end point.
pub open spec fn line_state(x: int, y: int, x1: int, y1: int, dx: int, dy: int, sx: int, sy: int, err: int) -> bool {
    let a = iabs(x1 - x);
    let b = iabs(y1 - y);
    &&& dx >= 0
    &&& dy <= 0
    &&& a <= dx
    &&& b <= -dy
    &&& (a > 0 ==> x1 - x == sx * a)
    &&& (b > 0 ==> y1 - y == sy * b)
    &&& (sx == 1 || sx == -1)
    &&& (sy == 1 || sy == -1)
    &&& err == dx + dy + a * (-dy) - b * dx
    &&& -2 * (dx - dy) <= err <= 2 * (dx - dy)
}

proof fn lemma_line_step(x: int, y: int, x1: int, y1: int, dx: int, dy: int, sx: int, sy: int, err: int)
    requires
        line_state(x, y, x1, y1, dx, dy, sx, sy, err),
        !(x == x1 && y == y1),
    ensures
        ({
            let e2 = 2 * err;
            let err1 = if e2 >= dy {
                err + dy
            } else {
                err
            };
            let nx = if e2 >= dy {
                x + sx
            } else {
                x
            };
            let err2 = if e2 <= dx {
                err1 + dx
            } else {
                err1
            };
            let ny = if e2 <= dx {
                y + sy
            } else {
                y
            };
            &&& line_state(nx, ny, x1, y1, dx, dy, sx, sy, err2)
            &&& iabs(x1 - nx) + iabs(y1 - ny) < iabs(x1 - x) + iabs(y1 - y)
            &&& iabs(nx - x) <= 1
            &&& iabs(ny - y) <= 1
        }),
{
    let a = iabs(x1 - x);
    let b = iabs(y1 - y);
    let ddy = -dy;
    let e2 = 2 * err;
    assert(a * ddy >= 0 && b * dx >= 0) by (nonlinear_arith)
        requires
            a >= 0,
            b >= 0,
            ddy >= 0,
            dx >= 0,
    ;
    assert(a >= 1 ==> a * ddy >= ddy) by (nonlinear_arith)
        requires
            ddy >= 0,
    ;
    assert(b >= 1 ==> b * dx >= dx) by (nonlinear_arith)
        requires
            dx >= 0,
    ;
    assert((a - 1) * ddy == a * ddy - ddy) by (nonlinear_arith);
    assert((b - 1) * dx == b * dx - dx) by (nonlinear_arith);
    assert(a == 0 ==> a * ddy == 0) by (nonlinear_arith);
    assert(b == 0 ==> b * dx == 0) by (nonlinear_arith);
    if a == 0 {
        assert(b >= 1);
        assert(e2 < dy);
    }
    if b == 0 {
        assert(a >= 1);
        assert(e2 > dx);
    }
}

proof fn lemma_line_ends(x: int, y: int, x1: int, y1: int, dx: int, dy: int, sx: int, sy: int, err: int, fuel: nat)
    requires
        line_state(x, y, x1, y1, dx, dy, sx, sy, err),
        fuel >= iabs(x1 - x) + iabs(y1 - y),
    ensures
        bresenham(x, y, x1, y1, dx, dy, sx, sy, err, fuel)[0] == (x, y),
        bresenham(x, y, x1, y1, dx, dy, sx, sy, err, fuel).last() == (x1, y1),
        forall|k: int|
            0 <= k < bresenham(x, y, x1, y1, dx, dy, sx, sy, err, fuel).len() - 1 ==> {
                let p = #[trigger] bresenham(x, y, x1, y1, dx, dy, sx, sy, err, fuel)[k];
                let q = bresenham(x, y, x1, y1, dx, dy, sx, sy, err, fuel)[k + 1];
                iabs(q.0 - p.0) <= 1 && iabs(q.1 - p.1) <= 1
            },
    decreases fuel,
{
    if !(x == x1 && y == y1) {
        lemma_line_step(x, y, x1, y1, dx, dy, sx, sy, err);
        let e2 = 2 * err;
        let err1 = if e2 >= dy {
            err + dy
        } else {
            err
        };
        let nx = if e2 >= dy {
            x + sx
        } else {
            x
        };
        let err2 = if e2 <= dx {
            err1 + dx
        } else {
            err1
        };
        let ny = if e2 <= dx {
            y + sy
        } else {
            y
        };
        let f1 = (fuel - 1) as nat;
        lemma_line_ends(nx, ny, x1, y1, dx, dy, sx, sy, err2, f1);
        let rest = bresenham(nx, ny, x1, y1, dx, dy, sx, sy, err2, f1);
        let all = bresenham(x, y, x1, y1, dx, dy, sx, sy, err, fuel);
        assert(all == seq![(x, y)] + rest);
        assert forall|k: int| 0 <= k < all.len() - 1 implies {
            let p = #[trigger] all[k];
            let q = all[k + 1];
            iabs(q.0 - p.0) <= 1 && iabs(q.1 - p.1) <= 1
        } by {
            if k > 0 {
                assert(all[k] == rest[k - 1]);
                assert(all[k + 1] == rest[k]);
            } else {
                assert(all[1] == rest[0]);
            }
        }
    }
}

/// A line starts at its first end point, ends at its second, and each pixel touches the next
/// (they differ by at most one in each coordinate).
pub proof fn line_joins_its_end_points(x0: int, y0: int, x1: int, y1: int)
    ensures
        line_points(x0, y0, x1, y1)[0] == (x0, y0),
        line_points(x0, y0, x1, y1).last() == (x1, y1),
        forall|k: int|
            0 <= k < line_points(x0, y0, x1, y1).len() - 1 ==> {
                let p = #[trigger] line_points(x0, y0, x1, y1)[k];
                let q = line_points(x0, y0, x1, y1)[k + 1];
                iabs(q.0 - p.0) <= 1 && iabs(q.1 - p.1) <= 1
            },
{
    let dx = iabs(x1 - x0);
    let dy = -iabs(y1 - y0);
    assert(dx * (-dy) - (-dy) * dx == 0) by (nonlinear_arith);
    lemma_line_ends(x0, y0, x1, y1, dx, dy, step_toward(x0, x1), step_toward(y0, y1), dx + dy, (dx - dy) as nat);
}

/// Whether the differences of two points' coordinates fit an `i32`, and their absolute
/// values too.
pub open spec fn span_fits(x0: i32, y0: i32, x1: i32, y1: i32) -> bool {
    &&& i32::MIN < x1 - x0 <= i32::MAX
    &&& i32::MIN < y1 - y0 <= i32::MAX
}

/// Draws the line from `(x0, y0)` to `(x1, y1)` with Bresenham's algorithm; pixels off the
/// canvas are left out.
pub fn draw_line(rgba: &mut Vec<u8>, x0: i32, y0: i32, x1: i32, y1: i32, color: [u8; 4])
    requires
        old(rgba)@.len() == canvas_len(),
        span_fits(x0, y0, x1, y1),
    ensures
        final(rgba)@ == paint_points(old(rgba)@, line_points(x0 as int, y0 as int, x1 as int, y1 as int), color@),
{
    let xd: i64 = x1 as i64 - x0 as i64;
    let yd: i64 = y1 as i64 - y0 as i64;
    let dx: i64 = if xd >= 0 {
        xd
    } else {
        -xd
    };
    let sx: i32 = if x0 < x1 {
        1
    } else {
        -1
    };
    let dy: i64 = if yd >= 0 {
        -yd
    } else {
        yd
    };
    let sy: i32 = if y0 < y1 {
        1
    } else {
        -1
    };
    let mut error: i64 = dx + dy;
    let mut x = x0;
    let mut y = y0;
    let ghost mut fuel: nat = (dx - dy) as nat;
    proof {
        assert((dx as int) * (-(dy as int)) - (-(dy as int)) * (dx as int) == 0) by (nonlinear_arith);
        assert(line_state(x as int, y as int, x1 as int, y1 as int, dx as int, dy as int, sx as int, sy as int, error as int));
    }
    loop
        invariant_except_break
            line_state(x as int, y as int, x1 as int, y1 as int, dx as int, dy as int, sx as int, sy as int, error as int),
            fuel >= iabs(x1 - x) + iabs(y1 - y),
            paint_points(old(rgba)@, line_points(x0 as int, y0 as int, x1 as int, y1 as int), color@)
                == paint_points(rgba@, bresenham(x as int, y as int, x1 as int, y1 as int, dx as int, dy as int, sx as int, sy as int, error as int, fuel), color@),
        invariant
            rgba@.len() == canvas_len(),
            0 <= dx <= i32::MAX,
            -(i32::MAX as int) <= dy <= 0,
        ensures
            rgba@ == paint_points(old(rgba)@, line_points(x0 as int, y0 as int, x1 as int, y1 as int), color@),
        decreases iabs(x1 - x) + iabs(y1 - y),
    {
        let ghost before = rgba@;
        let ghost pts = bresenham(x as int, y as int, x1 as int, y1 as int, dx as int, dy as int, sx as int, sy as int, error as int, fuel);
        set_pixel(rgba, x, y, color);
        if x == x1 && y == y1 {
            proof {
                assert(pts == seq![(x as int, y as int)]);
                assert(pts.drop_first() =~= Seq::<(int, int)>::empty());
                assert(paint_points(before, pts, color@) == paint_points(rgba@, pts.drop_first(), color@));
                assert(paint_points(rgba@, Seq::<(int, int)>::empty(), color@) == rgba@);
            }
            break;
        }
        proof {
            lemma_line_step(x as int, y as int, x1 as int, y1 as int, dx as int, dy as int, sx as int, sy as int, error as int);
        }
        let e2 = error * 2;
        if e2 >= dy {
            error = error + dy;
            x = x + sx;
        }
        if e2 <= dx {
            error = error + dx;
            y = y + sy;
        }
        proof {
            let f1 = (fuel - 1) as nat;
            assert(pts.drop_first() =~= bresenham(x as int, y as int, x1 as int, y1 as int, dx as int, dy as int, sx as int, sy as int, error as int, f1));
            fuel = f1;
        }
    }
}

/// The canvas with the first `k` edges of a closed polygon drawn (edge `i` joins point `i` to
/// the next point, the last point to the first).
pub open spec fn stroke_edges(c: Seq<u8>, pts: Seq<(i32, i32)>, k: int, color: Seq<u8>) -> Seq<u8>
    decreases k,
{
    if k <= 0 {
        c
    } else {
        let i = k - 1;
        let p = pts[i];
        let q = pts[(i + 1) % (pts.len() as int)];
        paint_points(stroke_edges(c, pts, k - 1, color), line_points(p.0 as int, p.1 as int, q.0 as int, q.1 as int), color)
    }
}

/// Whether the coordinate differences along every edge of a closed polygon fit an `i32`.
pub open spec fn edges_drawable(pts: Seq<(i32, i32)>) -> bool {
    forall|i: int|
        0 <= i < pts.len() ==> {
            let p = #[trigger] pts[i];
            let q = pts[(i + 1) % (pts.len() as int)];
            span_fits(p.0, p.1, q.0, q.1)
        }
}

proof fn lemma_paint_points_len(c: Seq<u8>, pts: Seq<(int, int)>, color: Seq<u8>)
    requires
        c.len() == canvas_len(),
    ensures
        paint_points(c, pts, color).len() == c.len(),
    decreases pts.len(),
{
    if pts.len() > 0 {
        lemma_paint_points_len(paint(c, pts[0].0, pts[0].1, color), pts.drop_first(), color);
    }
}

/// Draws the outline of a closed polygon.
pub fn stroke_polygon(rgba: &mut Vec<u8>, points: &[(i32, i32)], color: [u8; 4])
    requires
        old(rgba)@.len() == canvas_len(),
        edges_drawable(points@),
    ensures
        final(rgba)@ == stroke_edges(old(rgba)@, points@, points@.len() as int, color@),
{
    let n = points.len();
    let mut index: usize = 0;
    while index < n
        invariant
            n == points@.len(),
            index <= n,
            edges_drawable(points@),
            rgba@ == stroke_edges(old(rgba)@, points@, index as int, color@),
            rgba@.len() == canvas_len(),
        decreases n - index,
    {
        let next = (index + 1) % n;
        let (x0, y0) = points[index];
        let (x1, y1) = points[next];
        let ghost before = rgba@;
        proof {
            assert(points@[index as int] == (x0, y0));
            assert(points@[next as int] == (x1, y1));
            let p = points@[index as int];
            assert(span_fits(x0, y0, x1, y1));
        }
        draw_line(rgba, x0, y0, x1, y1, color);
        proof {
            lemma_paint_points_len(before, line_points(x0 as int, y0 as int, x1 as int, y1 as int), color@);
            assert(stroke_edges(old(rgba)@, points@, index + 1, color@) == paint_points(before, line_points(x0 as int, y0 as int, x1 as int, y1 as int), color@));
        }
        index = index + 1;
    }
}

} // verus!
