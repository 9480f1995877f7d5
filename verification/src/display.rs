//! Primitive renderers: screen fill, rectangle, and circle (outline via the
//! midpoint circle algorithm, or a filled disk), drawn against a canvas that
//! records the ordered sequence of drawing commands issued to it.

use vstd::prelude::*;

verus! {

/// An RGBA color.
#[derive(Clone, Copy, Debug, PartialEq, Eq, Structural)]
pub struct Color {
    pub r: u8,
    pub g: u8,
    pub b: u8,
    pub a: u8,
}

impl Color {
    /// An opaque color from red, green and blue components.
    pub open spec fn rgb_spec(r: u8, g: u8, b: u8) -> Color {
        Color { r, g, b, a: 255 }
    }

    /// Builds an opaque color from red, green and blue components.
    pub fn rgb(r: u8, g: u8, b: u8) -> (c: Color)
        ensures
            c == Color::rgb_spec(r, g, b),
    {
        Color { r, g, b, a: 255 }
    }
}

/// One drawing command. Draw order across commands on the same canvas is
/// call order: later commands overwrite earlier pixels.
#[derive(Clone, Copy, Debug, PartialEq, Eq, Structural)]
pub enum DrawOp {
    /// Select the color used by subsequent commands.
    SetColor(Color),
    /// Overwrite the whole surface with the selected color.
    Clear,
    /// Plot the single pixel at the given absolute coordinates.
    DrawPoint(i32, i32),
    /// Fill the axis-aligned rectangle at (x, y) with the given width and
    /// height.
    FillRect(i32, i32, u32, u32),
    /// Make the frame drawn so far visible.
    Present,
}

/// A drawing surface, modeled as the ordered sequence of commands issued to
/// it. Drawing never fails; every operation appends exactly one command.
pub struct Canvas {
    ops: Vec<DrawOp>,
}

impl View for Canvas {
    type V = Seq<DrawOp>;

    closed spec fn view(&self) -> Seq<DrawOp> {
        self.ops@
    }
}

impl Canvas {
    /// A fresh canvas with no commands recorded.
    pub fn new() -> (c: Canvas)
        ensures
            c@ == Seq::<DrawOp>::empty(),
    {
        let c = Canvas { ops: Vec::new() };
        proof {
            assert(c@ =~= Seq::<DrawOp>::empty());
        }
        c
    }

    /// Selects the drawing color for subsequent commands.
    pub fn set_draw_color(&mut self, color: Color)
        ensures
            final(self)@ == old(self)@.push(DrawOp::SetColor(color)),
    {
        self.ops.push(DrawOp::SetColor(color));
    }

    /// Overwrites the whole surface with the selected color.
    pub fn clear(&mut self)
        ensures
            final(self)@ == old(self)@.push(DrawOp::Clear),
    {
        self.ops.push(DrawOp::Clear);
    }

    /// Plots one pixel at the given absolute coordinates.
    pub fn draw_point(&mut self, x: i32, y: i32)
        ensures
            final(self)@ == old(self)@.push(DrawOp::DrawPoint(x, y)),
    {
        self.ops.push(DrawOp::DrawPoint(x, y));
    }

    /// Fills the axis-aligned rectangle at (x, y) with the given size.
    pub fn fill_rect(&mut self, x: i32, y: i32, width: u32, height: u32)
        ensures
            final(self)@ == old(self)@.push(DrawOp::FillRect(x, y, width, height)),
    {
        self.ops.push(DrawOp::FillRect(x, y, width, height));
    }

    /// Makes the frame drawn so far visible.
    pub fn present(&mut self)
        ensures
            final(self)@ == old(self)@.push(DrawOp::Present),
    {
        self.ops.push(DrawOp::Present);
    }

    /// Hands out the recorded commands, leaving the canvas empty.
    pub fn take_ops(&mut self) -> (v: Vec<DrawOp>)
        ensures
            v@ == old(self)@,
            final(self)@ == Seq::<DrawOp>::empty(),
    {
        let mut out: Vec<DrawOp> = Vec::new();
        core::mem::swap(&mut out, &mut self.ops);
        proof {
            assert(self@ =~= Seq::<DrawOp>::empty());
        }
        out
    }
}

/// Something that draws a visual primitive onto a canvas.
pub trait Display: Sized {
    /// The conditions under which this renderable may be drawn (bounds that
    /// keep the pixel arithmetic inside machine limits).
    spec fn wf(self) -> bool;

    /// The exact sequence of commands this renderable issues.
    spec fn ops_spec(self) -> Seq<DrawOp>;

    /// Draws the primitive: appends exactly `ops_spec` to the canvas.
    fn display(&self, canvas: &mut Canvas)
        requires
            self.wf(),
        ensures
            final(canvas)@ == old(canvas)@ + self.ops_spec(),
    ;
}

/// A renderable that draws nothing: the default display capability.
pub struct VoidDisplay {}

impl Display for VoidDisplay {
    open spec fn wf(self) -> bool {
        true
    }

    open spec fn ops_spec(self) -> Seq<DrawOp> {
        Seq::empty()
    }

    fn display(&self, canvas: &mut Canvas) {
        proof {
            assert(canvas@ =~= old(canvas)@ + self.ops_spec());
        }
    }
}

/// Sets the entire surface to a solid color; used for backgrounds.
pub struct ScreenFill {
    pub color: Color,
}

impl Display for ScreenFill {
    open spec fn wf(self) -> bool {
        true
    }

    open spec fn ops_spec(self) -> Seq<DrawOp> {
        seq![DrawOp::SetColor(self.color), DrawOp::Clear]
    }

    fn display(&self, canvas: &mut Canvas) {
        canvas.set_draw_color(self.color);
        canvas.clear();
        proof {
            assert(canvas@ =~= old(canvas)@ + self.ops_spec());
        }
    }
}

/// An axis-aligned filled rectangle at (x, y) with the given size and color.
pub struct Rect {
    pub x: i32,
    pub y: i32,
    pub width: u32,
    pub height: u32,
    pub color: Color,
}

impl Display for Rect {
    open spec fn wf(self) -> bool {
        true
    }

    open spec fn ops_spec(self) -> Seq<DrawOp> {
        seq![
            DrawOp::SetColor(self.color),
            DrawOp::FillRect(self.x, self.y, self.width, self.height),
        ]
    }

    fn display(&self, canvas: &mut Canvas) {
        canvas.set_draw_color(self.color);
        canvas.fill_rect(self.x, self.y, self.width, self.height);
        proof {
            assert(canvas@ =~= old(canvas)@ + self.ops_spec());
        }
    }
}

/// The exec point pairs as mathematical integer pairs.
pub open spec fn points_view(s: Seq<(i32, i32)>) -> Seq<(int, int)> {
    s.map_values(|p: (i32, i32)| (p.0 as int, p.1 as int))
}

/// The offset pairs (x, y) that the midpoint circle algorithm walks from the
/// given accumulator state: `error` is the integer error term, `tx` and `ty`
/// its increments, `diameter` twice the radius. The y step fires while the
/// error is non-positive, then the x step while it is positive.
pub open spec fn midpoint_pairs(
    x: int,
    y: int,
    tx: int,
    ty: int,
    error: int,
    diameter: int,
) -> Seq<(int, int)>
    decreases x - y + 2,
{
    if x < y {
        Seq::empty()
    } else {
        let y1 = if error <= 0 { y + 1 } else { y };
        let ty1 = if error <= 0 { ty + 2 } else { ty };
        let e1 = if error <= 0 { error + ty } else { error };
        let x1 = if e1 > 0 { x - 1 } else { x };
        let tx1 = if e1 > 0 { tx + 2 } else { tx };
        let e2 = if e1 > 0 { e1 + tx1 - diameter } else { e1 };
        seq![(x, y)] + midpoint_pairs(x1, y1, tx1, ty1, e2, diameter)
    }
}

/// The base offset pairs of a circle outline of the given radius: the
/// algorithm starts at (radius - 1, 0) with error `tx - diameter`.
pub open spec fn circle_pairs(radius: int) -> Seq<(int, int)> {
    midpoint_pairs(radius - 1, 0, 1, 1, 1 - 2 * radius, 2 * radius)
}

/// The eight points plotted for one base pair, centered at (cx, cy): every
/// sign/axis-swap image of the offset, in plot order.
pub open spec fn octet(cx: int, cy: int, p: (int, int)) -> Seq<(int, int)> {
    seq![
        (cx + p.0, cy - p.1),
        (cx + p.0, cy + p.1),
        (cx - p.0, cy - p.1),
        (cx - p.0, cy + p.1),
        (cx + p.1, cy - p.0),
        (cx + p.1, cy + p.0),
        (cx - p.1, cy - p.0),
        (cx - p.1, cy + p.0),
    ]
}

/// The full plot sequence of a circle outline: eight points per base pair.
pub open spec fn octets(cx: int, cy: int, pairs: Seq<(int, int)>) -> Seq<(int, int)>
    decreases pairs.len(),
{
    if pairs.len() == 0 {
        Seq::empty()
    } else {
        octet(cx, cy, pairs[0]) + octets(cx, cy, pairs.drop_first())
    }
}

/// Every point plotted for a circle outline of the given radius centered at
/// (cx, cy), in plot order.
pub open spec fn outline_points(cx: int, cy: int, radius: int) -> Seq<(int, int)> {
    octets(cx, cy, circle_pairs(radius))
}

proof fn lemma_octets_cons(cx: int, cy: int, p: (int, int), rest: Seq<(int, int)>)
    ensures
        octets(cx, cy, seq![p] + rest) == octet(cx, cy, p) + octets(cx, cy, rest),
{
    let s = seq![p] + rest;
    assert(s[0] == p);
    assert(s.drop_first() =~= rest);
}

/// Computes the outline of a circle of the given radius centered at
/// (cx, cy): the midpoint circle algorithm with integer error accumulation,
/// plotting the eight symmetric images of each visited offset pair.
pub fn circle_outline_points(cx: i32, cy: i32, radius: u32) -> (points: Vec<(i32, i32)>)
    requires
        1 <= radius <= 2048,
        -33554432 <= cx <= 33554432,
        -33554432 <= cy <= 33554432,
    ensures
        points_view(points@) == outline_points(cx as int, cy as int, radius as int),
{
    let diameter: i32 = (radius * 2) as i32;
    let mut x: i32 = (radius - 1) as i32;
    let mut y: i32 = 0;
    let mut tx: i32 = 1;
    let mut ty: i32 = 1;
    let mut error: i32 = tx - diameter;
    let mut points: Vec<(i32, i32)> = Vec::new();

    proof {
        assert(points_view(points@) =~= Seq::<(int, int)>::empty());
        assert(points_view(points@)
            + octets(cx as int, cy as int, circle_pairs(radius as int))
            =~= outline_points(cx as int, cy as int, radius as int));
    }

    while x >= y
        invariant
            1 <= radius <= 2048,
            -33554432 <= cx <= 33554432,
            -33554432 <= cy <= 33554432,
            diameter == 2 * radius,
            0 <= y,
            y <= x + 2,
            -1 <= x <= radius - 1,
            tx == 1 + 2 * (radius - 1 - x),
            ty == 1 + 2 * y,
            1 - diameter <= error,
            error <= tx + 1,
            points_view(points@)
                + octets(cx as int, cy as int,
                    midpoint_pairs(x as int, y as int, tx as int, ty as int,
                        error as int, diameter as int))
                == outline_points(cx as int, cy as int, radius as int),
        decreases x - y + 2,
    {
        let ghost pv0 = points_view(points@);
        let ghost x0 = x as int;
        let ghost y0 = y as int;
        let ghost pairs0 = midpoint_pairs(x as int, y as int, tx as int, ty as int,
            error as int, diameter as int);

        points.push((cx + x, cy - y));
        points.push((cx + x, cy + y));
        points.push((cx - x, cy - y));
        points.push((cx - x, cy + y));
        points.push((cx + y, cy - x));
        points.push((cx + y, cy + x));
        points.push((cx - y, cy - x));
        points.push((cx - y, cy + x));

        if error <= 0 {
            y = y + 1;
            error = error + ty;
            ty = ty + 2;
        }
        if error > 0 {
            x = x - 1;
            tx = tx + 2;
            error = error + tx - diameter;
        }

        proof {
            let rest = midpoint_pairs(x as int, y as int, tx as int, ty as int,
                error as int, diameter as int);
            assert(pairs0 == seq![(x0, y0)] + rest);
            lemma_octets_cons(cx as int, cy as int, (x0, y0), rest);
            assert(points_view(points@) =~= pv0 + octet(cx as int, cy as int, (x0, y0)));
            assert(points_view(points@) + octets(cx as int, cy as int, rest)
                =~= pv0 + octets(cx as int, cy as int, pairs0));
        }
    }

    proof {
        assert(midpoint_pairs(x as int, y as int, tx as int, ty as int,
            error as int, diameter as int) =~= Seq::<(int, int)>::empty());
        assert(points_view(points@)
            =~= points_view(points@)
                + octets(cx as int, cy as int,
                    midpoint_pairs(x as int, y as int, tx as int, ty as int,
                        error as int, diameter as int)));
    }

    points
}

/// One column scan of the filled-disk walk: the kept points of column `w`
/// from row `h` on.
pub open spec fn disk_row_from(cx: int, cy: int, radius: int, w: int, h: int) -> Seq<(int, int)>
    decreases 2 * radius - h + 1,
{
    if h > 2 * radius {
        Seq::empty()
    } else {
        let dx = radius - w;
        let dy = radius - h;
        let rest = disk_row_from(cx, cy, radius, w, h + 1);
        if dx * dx + dy * dy <= radius * radius {
            seq![(cx + dx, cy + dy)] + rest
        } else {
            rest
        }
    }
}

/// The filled-disk walk from column `w` on.
pub open spec fn disk_rows_from(cx: int, cy: int, radius: int, w: int) -> Seq<(int, int)>
    decreases 2 * radius - w + 1,
{
    if w > 2 * radius {
        Seq::empty()
    } else {
        disk_row_from(cx, cy, radius, w, 0) + disk_rows_from(cx, cy, radius, w + 1)
    }
}

/// Every point of the filled disk of the given radius centered at (cx, cy):
/// a brute-force scan of the whole bounding square (offsets -radius to
/// radius on both axes) keeping each point whose offset (dx, dy) satisfies
/// dx * dx + dy * dy <= radius * radius, in scan order.
pub open spec fn disk_points(cx: int, cy: int, radius: int) -> Seq<(int, int)> {
    disk_rows_from(cx, cy, radius, 0)
}

/// Computes the points of a filled disk of the given radius centered at
/// (cx, cy) by scanning its bounding square.
pub fn circle_disk_points(cx: i32, cy: i32, radius: u32) -> (points: Vec<(i32, i32)>)
    requires
        radius <= 2048,
        -33554432 <= cx <= 33554432,
        -33554432 <= cy <= 33554432,
    ensures
        points_view(points@) == disk_points(cx as int, cy as int, radius as int),
{
    let r: i32 = radius as i32;
    let mut points: Vec<(i32, i32)> = Vec::new();
    let mut w: i32 = 0;

    proof {
        assert(points_view(points@) =~= Seq::<(int, int)>::empty());
        assert(points_view(points@) + disk_rows_from(cx as int, cy as int, r as int, 0)
            =~= disk_points(cx as int, cy as int, radius as int));
    }

    while w <= 2 * r
        invariant
            r == radius,
            radius <= 2048,
            -33554432 <= cx <= 33554432,
            -33554432 <= cy <= 33554432,
            0 <= w <= 2 * r + 1,
            points_view(points@) + disk_rows_from(cx as int, cy as int, r as int, w as int)
                == disk_points(cx as int, cy as int, radius as int),
        decreases 2 * r - w + 1,
    {
        let mut h: i32 = 0;
        proof {
            assert(disk_rows_from(cx as int, cy as int, r as int, w as int)
                == disk_row_from(cx as int, cy as int, r as int, w as int, 0)
                    + disk_rows_from(cx as int, cy as int, r as int, w as int + 1));
            assert(points_view(points@)
                + disk_row_from(cx as int, cy as int, r as int, w as int, 0)
                + disk_rows_from(cx as int, cy as int, r as int, w as int + 1)
                =~= points_view(points@)
                    + disk_rows_from(cx as int, cy as int, r as int, w as int));
        }
        while h <= 2 * r
            invariant
                r == radius,
                radius <= 2048,
                -33554432 <= cx <= 33554432,
                -33554432 <= cy <= 33554432,
                0 <= w <= 2 * r,
                0 <= h <= 2 * r + 1,
                points_view(points@)
                    + disk_row_from(cx as int, cy as int, r as int, w as int, h as int)
                    + disk_rows_from(cx as int, cy as int, r as int, w as int + 1)
                    == disk_points(cx as int, cy as int, radius as int),
            decreases 2 * r - h + 1,
        {
            let ghost pv0 = points_view(points@);
            let ghost h0 = h as int;
            let dx: i32 = r - w;
            let dy: i32 = r - h;
            proof {
                assert(0 <= (dx as int) * (dx as int) <= 2048 * 2048) by (nonlinear_arith)
                    requires
                        -2048 <= dx as int <= 2048,
                ;
                assert(0 <= (dy as int) * (dy as int) <= 2048 * 2048) by (nonlinear_arith)
                    requires
                        -2048 <= dy as int <= 2048,
                ;
                assert((radius as int) * (radius as int) <= 2048 * 2048) by (nonlinear_arith)
                    requires
                        0 <= radius as int <= 2048,
                ;
            }
            if dx * dx + dy * dy <= (radius * radius) as i32 {
                points.push((cx + dx, cy + dy));
            }
            h = h + 1;
            proof {
                let row0 = disk_row_from(cx as int, cy as int, r as int, w as int, h0);
                let row1 = disk_row_from(cx as int, cy as int, r as int, w as int, h as int);
                if dx * dx + dy * dy <= radius * radius {
                    assert(row0 == seq![((cx + dx) as int, (cy + dy) as int)] + row1);
                    assert(points_view(points@)
                        =~= pv0.push(((cx + dx) as int, (cy + dy) as int)));
                    assert(points_view(points@) + row1 =~= pv0 + row0);
                } else {
                    assert(row0 == row1);
                    assert(points_view(points@) + row1 =~= pv0 + row0);
                }
                assert(points_view(points@) + row1
                    + disk_rows_from(cx as int, cy as int, r as int, w as int + 1)
                    =~= pv0 + row0
                        + disk_rows_from(cx as int, cy as int, r as int, w as int + 1));
            }
        }
        w = w + 1;
        proof {
            assert(disk_row_from(cx as int, cy as int, r as int, w as int - 1, h as int)
                =~= Seq::<(int, int)>::empty());
            assert(points_view(points@)
                + disk_rows_from(cx as int, cy as int, r as int, w as int)
                =~= points_view(points@)
                    + disk_row_from(cx as int, cy as int, r as int, w as int - 1, h as int)
                    + disk_rows_from(cx as int, cy as int, r as int, w as int));
        }
    }

    proof {
        assert(disk_rows_from(cx as int, cy as int, r as int, w as int)
            =~= Seq::<(int, int)>::empty());
        assert(points_view(points@)
            =~= points_view(points@)
                + disk_rows_from(cx as int, cy as int, r as int, w as int));
    }

    points
}

/// The plot commands for a sequence of points.
pub open spec fn point_ops(pts: Seq<(int, int)>) -> Seq<DrawOp> {
    pts.map_values(|p: (int, int)| DrawOp::DrawPoint(p.0 as i32, p.1 as i32))
}

/// A circle at (x, y): an outline traced by the midpoint circle algorithm,
/// or a filled disk, switched by `filled`.
pub struct Circle {
    pub x: i32,
    pub y: i32,
    pub radius: u32,
    pub filled: bool,
    pub color: Color,
}

impl Circle {
    /// The points this circle plots, in plot order.
    pub open spec fn points_spec(self) -> Seq<(int, int)> {
        if self.filled {
            disk_points(self.x as int, self.y as int, self.radius as int)
        } else {
            outline_points(self.x as int, self.y as int, self.radius as int)
        }
    }
}

impl Display for Circle {
    open spec fn wf(self) -> bool {
        &&& self.radius <= 2048
        &&& self.filled || 1 <= self.radius
        &&& -33554432 <= self.x <= 33554432
        &&& -33554432 <= self.y <= 33554432
    }

    open spec fn ops_spec(self) -> Seq<DrawOp> {
        seq![DrawOp::SetColor(self.color)] + point_ops(self.points_spec())
    }

    fn display(&self, canvas: &mut Canvas) {
        canvas.set_draw_color(self.color);
        let pts = if !self.filled {
            circle_outline_points(self.x, self.y, self.radius)
        } else {
            circle_disk_points(self.x, self.y, self.radius)
        };
        let mut i: usize = 0;
        while i < pts.len()
            invariant
                i <= pts.len(),
                points_view(pts@) == self.points_spec(),
                canvas@ == old(canvas)@ + seq![DrawOp::SetColor(self.color)]
                    + point_ops(points_view(pts@).take(i as int)),
            decreases pts.len() - i,
        {
            let ghost ops0 = canvas@;
            let p = pts[i];
            canvas.draw_point(p.0, p.1);
            i = i + 1;
            proof {
                assert(point_ops(points_view(pts@).take(i as int))
                    =~= point_ops(points_view(pts@).take(i as int - 1))
                        .push(DrawOp::DrawPoint(pts@[i as int - 1].0, pts@[i as int - 1].1)));
                assert(canvas@ =~= old(canvas)@ + seq![DrawOp::SetColor(self.color)]
                    + point_ops(points_view(pts@).take(i as int)));
            }
        }
        proof {
            assert(points_view(pts@).take(pts@.len() as int) =~= points_view(pts@));
            assert(canvas@ =~= old(canvas)@ + self.ops_spec());
        }
    }
}

/// The set of offsets, relative to the center, that a circle outline of
/// the given radius plots.
pub open spec fn outline_offset_set(radius: int) -> Set<(int, int)> {
    Set::new(
        |p: (int, int)|
            exists|q: (int, int)|
                circle_pairs(radius).contains(q) && #[trigger] octet(0, 0, q).contains(p),
    )
}

proof fn lemma_octet_symmetry(q: (int, int), a: int, b: int)
    requires
        octet(0, 0, q).contains((a, b)),
    ensures
        octet(0, 0, q).contains((-a, b)),
        octet(0, 0, q).contains((a, -b)),
        octet(0, 0, q).contains((b, a)),
{
    let s = octet(0, 0, q);
    assert(exists|k: int| 0 <= k < s.len() && s[k] == (a, b));
    let k = choose|k: int| 0 <= k < s.len() && s[k] == (a, b);
    if k == 0 {
        assert(s[2] == (-a, b) && s[1] == (a, -b) && s[7] == (b, a));
    } else if k == 1 {
        assert(s[3] == (-a, b) && s[0] == (a, -b) && s[5] == (b, a));
    } else if k == 2 {
        assert(s[0] == (-a, b) && s[3] == (a, -b) && s[6] == (b, a));
    } else if k == 3 {
        assert(s[1] == (-a, b) && s[2] == (a, -b) && s[4] == (b, a));
    } else if k == 4 {
        assert(s[6] == (-a, b) && s[5] == (a, -b) && s[3] == (b, a));
    } else if k == 5 {
        assert(s[7] == (-a, b) && s[4] == (a, -b) && s[1] == (b, a));
    } else if k == 6 {
        assert(s[4] == (-a, b) && s[7] == (a, -b) && s[2] == (b, a));
    } else {
        assert(s[5] == (-a, b) && s[6] == (a, -b) && s[0] == (b, a));
    }
}

/// Eightfold symmetry of the circle outline: the set of offsets it plots
/// around the center is closed under flipping the sign of either
/// coordinate and under swapping the two coordinates, hence under all
/// eight compositions of those transformations.
pub proof fn lemma_outline_symmetry(radius: int, a: int, b: int)
    requires
        outline_offset_set(radius).contains((a, b)),
    ensures
        outline_offset_set(radius).contains((-a, b)),
        outline_offset_set(radius).contains((a, -b)),
        outline_offset_set(radius).contains((b, a)),
{
    let q = choose|q: (int, int)|
        circle_pairs(radius).contains(q) && #[trigger] octet(0, 0, q).contains((a, b));
    lemma_octet_symmetry(q, a, b);
    assert(octet(0, 0, q).contains((-a, b)));
    assert(octet(0, 0, q).contains((a, -b)));
    assert(octet(0, 0, q).contains((b, a)));
}

proof fn lemma_octet_shift(cx: int, cy: int, q: (int, int), p: (int, int))
    ensures
        octet(cx, cy, q).contains(p) <==> octet(0, 0, q).contains((p.0 - cx, p.1 - cy)),
{
    let s = octet(cx, cy, q);
    let s0 = octet(0, 0, q);
    assert forall|k: int| 0 <= k < 8 implies #[trigger] s[k] == (s0[k].0 + cx, s0[k].1 + cy) by {
        assert(s[0] == (s0[0].0 + cx, s0[0].1 + cy));
        assert(s[1] == (s0[1].0 + cx, s0[1].1 + cy));
        assert(s[2] == (s0[2].0 + cx, s0[2].1 + cy));
        assert(s[3] == (s0[3].0 + cx, s0[3].1 + cy));
        assert(s[4] == (s0[4].0 + cx, s0[4].1 + cy));
        assert(s[5] == (s0[5].0 + cx, s0[5].1 + cy));
        assert(s[6] == (s0[6].0 + cx, s0[6].1 + cy));
        assert(s[7] == (s0[7].0 + cx, s0[7].1 + cy));
    }
    if s.contains(p) {
        let k = choose|k: int| 0 <= k < s.len() && s[k] == p;
        assert(s0[k] == (p.0 - cx, p.1 - cy));
    }
    if s0.contains((p.0 - cx, p.1 - cy)) {
        let k = choose|k: int| 0 <= k < s0.len() && s0[k] == (p.0 - cx, p.1 - cy);
        assert(s[k] == p);
    }
}

proof fn lemma_octets_contains(cx: int, cy: int, pairs: Seq<(int, int)>, p: (int, int))
    ensures
        octets(cx, cy, pairs).contains(p) <==> exists|q: (int, int)|
            pairs.contains(q) && #[trigger] octet(0, 0, q).contains((p.0 - cx, p.1 - cy)),
    decreases pairs.len(),
{
    if pairs.len() == 0 {
        assert(!octets(cx, cy, pairs).contains(p));
        assert(forall|q: (int, int)| !pairs.contains(q));
    } else {
        let rest = pairs.drop_first();
        lemma_octets_contains(cx, cy, rest, p);
        lemma_octet_shift(cx, cy, pairs[0], p);
        let s = octets(cx, cy, pairs);
        let head = octet(cx, cy, pairs[0]);
        let tail = octets(cx, cy, rest);
        assert(s == head + tail);
        if s.contains(p) {
            let k = choose|k: int| 0 <= k < s.len() && s[k] == p;
            if k < head.len() {
                assert(head[k] == p);
                assert(head.contains(p));
                assert(pairs.contains(pairs[0]));
            } else {
                assert(tail[k - head.len()] == p);
                assert(tail.contains(p));
                let q = choose|q: (int, int)|
                    rest.contains(q) && #[trigger] octet(0, 0, q).contains((p.0 - cx, p.1 - cy));
                let j = choose|j: int| 0 <= j < rest.len() && rest[j] == q;
                assert(pairs[j + 1] == q);
                assert(pairs.contains(q));
            }
        }
        if exists|q: (int, int)|
            pairs.contains(q) && #[trigger] octet(0, 0, q).contains((p.0 - cx, p.1 - cy)) {
            let q = choose|q: (int, int)|
                pairs.contains(q) && #[trigger] octet(0, 0, q).contains((p.0 - cx, p.1 - cy));
            let j = choose|j: int| 0 <= j < pairs.len() && pairs[j] == q;
            if j == 0 {
                assert(head.contains(p));
                let k = choose|k: int| 0 <= k < head.len() && head[k] == p;
                assert(s[k] == p);
            } else {
                assert(rest[j - 1] == q);
                assert(rest.contains(q));
                assert(tail.contains(p));
                let k = choose|k: int| 0 <= k < tail.len() && tail[k] == p;
                assert(s[head.len() + k] == p);
            }
        }
    }
}

/// What the outline of a circle plots, in terms of its center: a point is
/// plotted exactly when its offset from the center lies in the outline's
/// offset set, which `lemma_outline_symmetry` shows eightfold symmetric.
pub proof fn lemma_outline_points_are_offsets(cx: int, cy: int, radius: int, p: (int, int))
    ensures
        outline_points(cx, cy, radius).contains(p) <==> outline_offset_set(radius).contains(
            (p.0 - cx, p.1 - cy),
        ),
{
    lemma_octets_contains(cx, cy, circle_pairs(radius), p);
}

/// No element of the sequence repeats.
pub open spec fn pairwise_distinct(s: Seq<(int, int)>) -> bool {
    forall|i: int, j: int| #![trigger s[i], s[j]] 0 <= i < j < s.len() ==> s[i] != s[j]
}

proof fn lemma_midpoint_pairs_bounds(x: int, y: int, tx: int, ty: int, error: int, diameter: int)
    ensures
        forall|k: int|
            0 <= k < midpoint_pairs(x, y, tx, ty, error, diameter).len() ==> (
            #[trigger] midpoint_pairs(x, y, tx, ty, error, diameter)[k]).1 >= y && midpoint_pairs(
                x,
                y,
                tx,
                ty,
                error,
                diameter,
            )[k].0 <= x,
    decreases x - y + 2,
{
    if x < y {
    } else {
        let y1 = if error <= 0 { y + 1 } else { y };
        let ty1 = if error <= 0 { ty + 2 } else { ty };
        let e1 = if error <= 0 { error + ty } else { error };
        let x1 = if e1 > 0 { x - 1 } else { x };
        let tx1 = if e1 > 0 { tx + 2 } else { tx };
        let e2 = if e1 > 0 { e1 + tx1 - diameter } else { e1 };
        lemma_midpoint_pairs_bounds(x1, y1, tx1, ty1, e2, diameter);
        let s = midpoint_pairs(x, y, tx, ty, error, diameter);
        let rest = midpoint_pairs(x1, y1, tx1, ty1, e2, diameter);
        assert(s == seq![(x, y)] + rest);
        assert forall|k: int| 0 <= k < s.len() implies (#[trigger] s[k]).1 >= y && s[k].0
            <= x by {
            if k == 0 {
                assert(s[0] == (x, y));
            } else {
                assert(s[k] == rest[k - 1]);
                assert(rest[k - 1].1 >= y1 && rest[k - 1].0 <= x1);
            }
        }
    }
}

proof fn lemma_midpoint_pairs_distinct(x: int, y: int, tx: int, ty: int, error: int, diameter: int)
    ensures
        pairwise_distinct(midpoint_pairs(x, y, tx, ty, error, diameter)),
    decreases x - y + 2,
{
    if x < y {
    } else {
        let y1 = if error <= 0 { y + 1 } else { y };
        let ty1 = if error <= 0 { ty + 2 } else { ty };
        let e1 = if error <= 0 { error + ty } else { error };
        let x1 = if e1 > 0 { x - 1 } else { x };
        let tx1 = if e1 > 0 { tx + 2 } else { tx };
        let e2 = if e1 > 0 { e1 + tx1 - diameter } else { e1 };
        lemma_midpoint_pairs_distinct(x1, y1, tx1, ty1, e2, diameter);
        lemma_midpoint_pairs_bounds(x1, y1, tx1, ty1, e2, diameter);
        let s = midpoint_pairs(x, y, tx, ty, error, diameter);
        let rest = midpoint_pairs(x1, y1, tx1, ty1, e2, diameter);
        assert(s == seq![(x, y)] + rest);
        assert(y1 > y || x1 < x);
        assert forall|i: int, j: int| #![trigger s[i], s[j]] 0 <= i < j < s.len() implies s[i]
            != s[j] by {
            if i == 0 {
                assert(s[0] == (x, y));
                assert(s[j] == rest[j - 1]);
                assert(rest[j - 1].1 >= y1 && rest[j - 1].0 <= x1);
            } else {
                assert(s[i] == rest[i - 1]);
                assert(s[j] == rest[j - 1]);
            }
        }
    }
}

/// The magnitude of an offset coordinate.
pub open spec fn abs_val(a: int) -> int {
    if a >= 0 {
        a
    } else {
        -a
    }
}

proof fn lemma_octet_member_shape(q: (int, int), p: (int, int))
    requires
        q.0 >= q.1 >= 0,
        octet(0, 0, q).contains(p),
    ensures
        (abs_val(p.0) == q.0 && abs_val(p.1) == q.1) || (abs_val(p.0) == q.1 && abs_val(p.1)
            == q.0),
{
    let s = octet(0, 0, q);
    let k = choose|k: int| 0 <= k < s.len() && s[k] == p;
    assert(s[k] == p);
}

proof fn lemma_shared_point_equal_pairs(q1: (int, int), q2: (int, int), p: (int, int))
    requires
        q1.0 >= q1.1 >= 0,
        q2.0 >= q2.1 >= 0,
        octet(0, 0, q1).contains(p),
        octet(0, 0, q2).contains(p),
    ensures
        q1 == q2,
{
    lemma_octet_member_shape(q1, p);
    lemma_octet_member_shape(q2, p);
}

proof fn lemma_midpoint_pairs_shape(x: int, y: int, tx: int, ty: int, error: int, diameter: int)
    requires
        y >= 0,
    ensures
        forall|k: int|
            0 <= k < midpoint_pairs(x, y, tx, ty, error, diameter).len() ==> (
            #[trigger] midpoint_pairs(x, y, tx, ty, error, diameter)[k]).0 >= midpoint_pairs(
                x,
                y,
                tx,
                ty,
                error,
                diameter,
            )[k].1 >= 0,
    decreases x - y + 2,
{
    if x < y {
    } else {
        let y1 = if error <= 0 { y + 1 } else { y };
        let ty1 = if error <= 0 { ty + 2 } else { ty };
        let e1 = if error <= 0 { error + ty } else { error };
        let x1 = if e1 > 0 { x - 1 } else { x };
        let tx1 = if e1 > 0 { tx + 2 } else { tx };
        let e2 = if e1 > 0 { e1 + tx1 - diameter } else { e1 };
        lemma_midpoint_pairs_shape(x1, y1, tx1, ty1, e2, diameter);
        let s = midpoint_pairs(x, y, tx, ty, error, diameter);
        let rest = midpoint_pairs(x1, y1, tx1, ty1, e2, diameter);
        assert(s == seq![(x, y)] + rest);
        assert forall|k: int| 0 <= k < s.len() implies (#[trigger] s[k]).0 >= s[k].1 >= 0 by {
            if k == 0 {
                assert(s[0] == (x, y));
            } else {
                assert(s[k] == rest[k - 1]);
            }
        }
    }
}

/// The eight images of two distinct base pairs never coincide: every base
/// pair of the walk satisfies x >= y >= 0, and such a pair is recoverable
/// from any of its images as the ordered magnitudes of the coordinates. So
/// a repeated point of the plotted outline can only arise inside a single
/// octet (whose images coincide in part on the axes and the diagonal),
/// never across two base pairs.
pub proof fn lemma_octets_of_distinct_pairs_disjoint(radius: int, i: int, j: int, p: (int, int))
    requires
        0 <= i < j < circle_pairs(radius).len(),
        octet(0, 0, circle_pairs(radius)[i]).contains(p),
    ensures
        !octet(0, 0, circle_pairs(radius)[j]).contains(p),
{
    lemma_circle_pairs_distinct(radius);
    lemma_midpoint_pairs_shape(radius - 1, 0, 1, 1, 1 - 2 * radius, 2 * radius);
    if octet(0, 0, circle_pairs(radius)[j]).contains(p) {
        lemma_shared_point_equal_pairs(circle_pairs(radius)[i], circle_pairs(radius)[j], p);
    }
}

/// The midpoint walk never revisits a base offset pair: along the walk the
/// y offset never shrinks and the x offset never grows, and every step
/// strictly changes the pair, so the base pairs of every outline are
/// pairwise distinct. (The plotted list itself repeats points where an
/// offset lies on an axis or a diagonal: the eight images of such a pair
/// coincide in part.)
pub proof fn lemma_circle_pairs_distinct(radius: int)
    ensures
        pairwise_distinct(circle_pairs(radius)),
{
    lemma_midpoint_pairs_distinct(radius - 1, 0, 1, 1, 1 - 2 * radius, 2 * radius);
}

/// The closed sum over the renderers an entity can hand the draw phase;
/// it stands in for dynamic dispatch over the display capability.
pub enum Renderable {
    Void(VoidDisplay),
    Fill(ScreenFill),
    Rect(Rect),
    Circle(Circle),
}

impl Display for Renderable {
    open spec fn wf(self) -> bool {
        match self {
            Renderable::Void(d) => d.wf(),
            Renderable::Fill(d) => d.wf(),
            Renderable::Rect(d) => d.wf(),
            Renderable::Circle(d) => d.wf(),
        }
    }

    open spec fn ops_spec(self) -> Seq<DrawOp> {
        match self {
            Renderable::Void(d) => d.ops_spec(),
            Renderable::Fill(d) => d.ops_spec(),
            Renderable::Rect(d) => d.ops_spec(),
            Renderable::Circle(d) => d.ops_spec(),
        }
    }

    fn display(&self, canvas: &mut Canvas) {
        match self {
            Renderable::Void(d) => d.display(canvas),
            Renderable::Fill(d) => d.display(canvas),
            Renderable::Rect(d) => d.display(canvas),
            Renderable::Circle(d) => d.display(canvas),
        }
    }
}

} // verus!
