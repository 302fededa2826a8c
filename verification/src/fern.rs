//! The fern accumulator: owns the current chaos-game point and the persistent
//! pixel raster, and on each generation request advances the point `n` times,
//! painting the projection of each pre-update point into the raster.
//!
//! The whole behaviour is pinned to a mathematical state machine over
//! [`FernView`]: [`gen_spec`] is the transition of one generation call,
//! [`reset_spec`] the transition of a reset. Generation from a caller-supplied
//! draw sequence ([`Fern::gen_fern_steps`]) equals `gen_spec` exactly;
//! generation from the random source ([`Fern::gen_fern`]) equals `gen_spec`
//! for some bounded draw sequence.

use crate::canvas::{Canvas, FernError};
use crate::color::Color;
use crate::rng::draw_unit_numerator;
use crate::sampler::{sample_step, step_spec, FractalPoint, SCALE, UNIT_RESOLUTION};
use vstd::arithmetic::div_mod::lemma_div_nonincreasing;
use vstd::prelude::*;

verus! {

/// The mathematical state of an accumulator: the current point, the raster
/// cells in row-major order with its dimensions, the epoch flag, and the
/// cumulative iteration counter.
#[verifier::ext_equal]
pub ghost struct FernView {
    pub x: int,
    pub y: int,
    pub width: int,
    pub height: int,
    pub cells: Seq<Color>,
    pub background_drawn: bool,
    pub count: int,
}

/// A state whose cell store covers its positive raster dimensions.
pub open spec fn view_wf(v: FernView) -> bool {
    &&& 0 < v.width
    &&& 0 < v.height
    &&& v.cells.len() == v.width * v.height
}

/// Division that truncates toward zero, as a float-to-integer cast would.
pub open spec fn div_trunc(a: int, b: int) -> int {
    if a >= 0 {
        a / b
    } else {
        -((-a) / b)
    }
}

/// The projection of a fractal-space point onto pixel space:
/// pixel_x = width * (x + 3) / 6 and pixel_y = height - height * (y + 2) / 14
/// (the latter written over a common denominator as height * (12 - y) / 14),
/// truncated toward zero; coordinates that land outside
/// [0, width) x [0, height) are discarded.
pub open spec fn project_spec(x: int, y: int, w: int, h: int) -> Option<(int, int)> {
    let px = div_trunc(w * (x + 3 * SCALE), 6 * SCALE);
    let py = div_trunc(h * (12 * SCALE - y), 14 * SCALE);
    if 0 <= px < w && 0 <= py < h {
        Some((px, py))
    } else {
        None
    }
}

/// Every draw of the sequence is a valid numerator of the unit interval.
pub open spec fn bounded_draws(draws: Seq<u64>) -> bool {
    forall|i: int| 0 <= i < draws.len() ==> #[trigger] draws[i] < UNIT_RESOLUTION
}

/// One iteration of a generation call: paint the projection of the current
/// point (if it lands on the raster), then advance the point by the map that
/// the draw `r` selects.
pub open spec fn step_view(v: FernView, r: u64, color: Color) -> FernView {
    let painted = match project_spec(v.x, v.y, v.width, v.height) {
        Some(pc) => v.cells.update(pc.1 * v.width + pc.0, color),
        None => v.cells,
    };
    let p2 = step_spec(r, v.x, v.y);
    FernView {
        x: p2.0,
        y: p2.1,
        width: v.width,
        height: v.height,
        cells: painted,
        background_drawn: v.background_drawn,
        count: v.count,
    }
}

/// The iterations of one generation call, applied in order.
pub open spec fn apply_draws(v: FernView, draws: Seq<u64>, color: Color) -> FernView
    decreases draws.len(),
{
    if draws.len() == 0 {
        v
    } else {
        step_view(apply_draws(v, draws.drop_last(), color), draws.last(), color)
    }
}

/// The one-time-per-epoch background fill.
pub open spec fn fill_view(v: FernView, background: Color) -> FernView {
    FernView {
        x: v.x,
        y: v.y,
        width: v.width,
        height: v.height,
        cells: Seq::new(v.cells.len(), |i: int| background),
        background_drawn: true,
        count: v.count,
    }
}

/// The transition of one whole generation call `generate(draws, color,
/// background)`: fill the raster with `background` if this epoch has not yet
/// been filled, run one [`step_view`] per draw, and add the number of draws to
/// the counter.
pub open spec fn gen_spec(v: FernView, draws: Seq<u64>, color: Color, background: Color) -> FernView {
    let base = if v.background_drawn {
        v
    } else {
        fill_view(v, background)
    };
    let stepped = apply_draws(base, draws, color);
    FernView {
        x: stepped.x,
        y: stepped.y,
        width: stepped.width,
        height: stepped.height,
        cells: stepped.cells,
        background_drawn: stepped.background_drawn,
        count: v.count + draws.len(),
    }
}

/// The transition of `reset()`: counter and point are cleared and the next
/// generation call will fill afresh, but the cells are left as they are.
pub open spec fn reset_spec(v: FernView) -> FernView {
    FernView {
        x: 0,
        y: 0,
        width: v.width,
        height: v.height,
        cells: v.cells,
        background_drawn: false,
        count: 0,
    }
}

/// A projected coordinate that survives the discard is inside the raster:
/// whenever the projection yields a pixel, that pixel lies within
/// [0, width) x [0, height).
pub proof fn lemma_projection_in_bounds(x: int, y: int, w: int, h: int)
    ensures
        match project_spec(x, y, w, h) {
            Some(pc) => 0 <= pc.0 < w && 0 <= pc.1 < h,
            None => true,
        },
{
}

/// One iteration changes only the point and at most one in-bounds cell:
/// dimensions, epoch flag, counter and the number of cells are untouched, and
/// a changed cell took the fern color.
proof fn lemma_step_view_frame(v: FernView, r: u64, color: Color)
    requires
        view_wf(v),
    ensures
        view_wf(step_view(v, r, color)),
        step_view(v, r, color).width == v.width,
        step_view(v, r, color).height == v.height,
        step_view(v, r, color).background_drawn == v.background_drawn,
        step_view(v, r, color).count == v.count,
        step_view(v, r, color).cells.len() == v.cells.len(),
        forall|i: int|
            0 <= i < v.cells.len() ==> #[trigger] step_view(v, r, color).cells[i] == v.cells[i]
                || step_view(v, r, color).cells[i] == color,
{
    if project_spec(v.x, v.y, v.width, v.height) is Some {
        let pc = project_spec(v.x, v.y, v.width, v.height)->0;
        assert(0 <= pc.1 * v.width + pc.0 < v.width * v.height) by (nonlinear_arith)
            requires
                0 <= pc.0 < v.width,
                0 <= pc.1 < v.height,
        ;
    }
}

/// The iterations of a generation call change only the point and the cells:
/// dimensions, epoch flag, counter and the number of cells are untouched.
pub proof fn lemma_apply_draws_frame(v: FernView, draws: Seq<u64>, color: Color)
    requires
        view_wf(v),
    ensures
        view_wf(apply_draws(v, draws, color)),
        apply_draws(v, draws, color).width == v.width,
        apply_draws(v, draws, color).height == v.height,
        apply_draws(v, draws, color).background_drawn == v.background_drawn,
        apply_draws(v, draws, color).count == v.count,
        apply_draws(v, draws, color).cells.len() == v.cells.len(),
    decreases draws.len(),
{
    if draws.len() > 0 {
        lemma_apply_draws_frame(v, draws.drop_last(), color);
        lemma_step_view_frame(apply_draws(v, draws.drop_last(), color), draws.last(), color);
    }
}

/// The iterations of a generation call only ever paint the fern color over
/// existing cells: every cell is either what it was or the fern color.
pub proof fn lemma_apply_draws_cells(v: FernView, draws: Seq<u64>, color: Color)
    requires
        view_wf(v),
    ensures
        forall|i: int|
            0 <= i < v.cells.len() ==> #[trigger] apply_draws(v, draws, color).cells[i]
                == v.cells[i] || apply_draws(v, draws, color).cells[i] == color,
    decreases draws.len(),
{
    if draws.len() > 0 {
        lemma_apply_draws_cells(v, draws.drop_last(), color);
        lemma_apply_draws_frame(v, draws.drop_last(), color);
        lemma_step_view_frame(apply_draws(v, draws.drop_last(), color), draws.last(), color);
    }
}

/// Detail accumulates: once a cell holds the fern color, further generation
/// calls within the same epoch (no intervening reset, so no fresh fill) never
/// take it away.
pub proof fn lemma_fern_pixels_persist(
    v: FernView,
    draws: Seq<u64>,
    color: Color,
    background: Color,
    i: int,
)
    requires
        view_wf(v),
        v.background_drawn,
        0 <= i < v.cells.len(),
        v.cells[i] == color,
    ensures
        gen_spec(v, draws, color, background).cells[i] == color,
{
    lemma_apply_draws_cells(v, draws, color);
}

/// A reset leaves every painted cell in place: the visible clear happens only
/// lazily, through the fill of the next generation call.
pub proof fn lemma_reset_keeps_canvas(v: FernView)
    ensures
        reset_spec(v).cells == v.cells,
{
}

/// After a reset, a generation call starts from a fresh background fill:
/// every cell of the result is the background color or the fern color,
/// whatever was painted before.
pub proof fn lemma_generate_after_reset_is_fresh(
    v: FernView,
    draws: Seq<u64>,
    color: Color,
    background: Color,
)
    requires
        view_wf(v),
    ensures
        forall|i: int|
            0 <= i < v.cells.len() ==> #[trigger] gen_spec(
                reset_spec(v),
                draws,
                color,
                background,
            ).cells[i] == color || gen_spec(reset_spec(v), draws, color, background).cells[i]
                == background,
{
    let base = fill_view(reset_spec(v), background);
    assert(view_wf(base));
    lemma_apply_draws_cells(base, draws, color);
}

/// After a reset, what a generation call produces does not depend on the old
/// cells at all: two states that differ only in their cells generate the same
/// result.
pub proof fn lemma_generate_after_reset_ignores_old_pixels(
    v1: FernView,
    v2: FernView,
    draws: Seq<u64>,
    color: Color,
    background: Color,
)
    requires
        v1.width == v2.width,
        v1.height == v2.height,
        v1.cells.len() == v2.cells.len(),
    ensures
        gen_spec(reset_spec(v1), draws, color, background) == gen_spec(
            reset_spec(v2),
            draws,
            color,
            background,
        ),
{
    assert(fill_view(reset_spec(v1), background) =~= fill_view(reset_spec(v2), background));
}

/// A generation call with zero iterations is a no-op: the counter and the
/// point are unchanged, and the cells are unchanged except for the one-time
/// background fill if it was still owed.
pub proof fn lemma_generate_zero_is_noop(v: FernView, color: Color, background: Color)
    ensures
        gen_spec(v, Seq::<u64>::empty(), color, background).count == v.count,
        gen_spec(v, Seq::<u64>::empty(), color, background).x == v.x,
        gen_spec(v, Seq::<u64>::empty(), color, background).y == v.y,
        v.background_drawn ==> gen_spec(v, Seq::<u64>::empty(), color, background).cells
            == v.cells,
        !v.background_drawn ==> gen_spec(v, Seq::<u64>::empty(), color, background).cells
            == Seq::new(v.cells.len(), |i: int| background),
{
}

/// Division truncating toward zero, carried out on unsigned machine words.
fn div_trunc_i64(a: i64, b: i64) -> (q: i64)
    requires
        0 < b,
        i64::MIN < a,
    ensures
        q == div_trunc(a as int, b as int),
{
    if a >= 0 {
        proof {
            lemma_div_nonincreasing(a as int, b as int);
        }
        ((a as u64) / (b as u64)) as i64
    } else {
        let m: u64 = (-a) as u64;
        proof {
            lemma_div_nonincreasing(m as int, b as int);
        }
        -((m / (b as u64)) as i64)
    }
}

/// The projection of the current point onto the raster, or `None` where it
/// falls outside; exactly [`project_spec`].
pub fn project(p: FractalPoint, width: u32, height: u32) -> (result: Option<(u32, u32)>)
    requires
        p.wf(),
        0 < width,
        0 < height,
    ensures
        match result {
            Some(pc) => project_spec(p.x as int, p.y as int, width as int, height as int)
                == Some((pc.0 as int, pc.1 as int)),
            None => project_spec(p.x as int, p.y as int, width as int, height as int) is None,
        },
{
    let sx: i64 = p.x + 3 * SCALE;
    let sy: i64 = 12 * SCALE - p.y;
    proof {
        assert((width as int) * (sx as int) <= 0x2000_0000_0000_0000
            && (width as int) * (sx as int) >= -0x2000_0000_0000_0000) by (nonlinear_arith)
            requires
                0 < width <= u32::MAX,
                -1_000_000 <= sx <= 7_000_000,
        ;
        assert((height as int) * (sy as int) <= 0x2000_0000_0000_0000 && (height as int) * (
        sy as int) >= 0) by (nonlinear_arith)
            requires
                0 < height <= u32::MAX,
                0 <= sy <= 24_000_000,
        ;
    }
    let nx: i64 = (width as i64) * sx;
    let ny: i64 = (height as i64) * sy;
    let px: i64 = div_trunc_i64(nx, 6 * SCALE);
    let py: i64 = div_trunc_i64(ny, 14 * SCALE);
    if 0 <= px && px < width as i64 && 0 <= py && py < height as i64 {
        Some((px as u32, py as u32))
    } else {
        None
    }
}

/// The accumulator: the current point, the persistent raster, the epoch flag
/// of the lazy background fill, and the cumulative iteration counter.
pub struct Fern {
    pub point: FractalPoint,
    pub canvas: Canvas,
    pub background_drawn: bool,
    pub iterated_count: u128,
}

impl View for Fern {
    type V = FernView;

    open spec fn view(&self) -> FernView {
        FernView {
            x: self.point.x as int,
            y: self.point.y as int,
            width: self.canvas.spec_width() as int,
            height: self.canvas.spec_height() as int,
            cells: self.canvas@,
            background_drawn: self.background_drawn,
            count: self.iterated_count as int,
        }
    }
}

impl Fern {
    pub open spec fn wf(&self) -> bool {
        &&& self.point.wf()
        &&& self.canvas.wf()
    }

    /// A fresh accumulator: point at the origin, counter at zero, every cell
    /// blank and the background fill still owed. A zero dimension is rejected
    /// with `InvalidDimension`.
    pub fn new(width: u32, height: u32) -> (result: Result<Fern, FernError>)
        requires
            width * height <= usize::MAX,
        ensures
            result is Ok <==> (0 < width && 0 < height),
            result matches Ok(f) ==> f.wf() && f@ == (FernView {
                x: 0,
                y: 0,
                width: width as int,
                height: height as int,
                cells: Seq::new((width * height) as nat, |i: int| Color::blank_spec()),
                background_drawn: false,
                count: 0,
            }),
            result matches Err(e) ==> e == FernError::InvalidDimension,
    {
        let canvas = match Canvas::new(width, height) {
            Ok(c) => c,
            Err(e) => {
                return Err(e);
            },
        };
        let fern = Fern {
            point: FractalPoint::origin(),
            canvas,
            background_drawn: false,
            iterated_count: 0,
        };
        proof {
            assert(fern@ =~= FernView {
                x: 0,
                y: 0,
                width: width as int,
                height: height as int,
                cells: Seq::new((width * height) as nat, |i: int| Color::blank_spec()),
                background_drawn: false,
                count: 0,
            });
        }
        Ok(fern)
    }

    /// One iteration: paint the projection of the current point, then advance
    /// the point by the map that `r` selects.
    fn advance(&mut self, r: u64, color: Color)
        requires
            old(self).wf(),
            r < UNIT_RESOLUTION,
        ensures
            final(self).wf(),
            final(self)@ == step_view(old(self)@, r, color),
    {
        let projected = project(self.point, self.canvas.width(), self.canvas.height());
        if let Some((px, py)) = projected {
            self.canvas.paint(px, py, color);
        }
        self.point = sample_step(r, self.point);
        proof {
            assert(self@ =~= step_view(old(self)@, r, color));
        }
    }

    /// One generation call driven by a caller-supplied sequence of uniform
    /// draws: a pure function of the old state and the draws, so a fixed
    /// sequence reproduces the exact same points and pixels every time.
    pub fn gen_fern_steps(
        &mut self,
        draws: &Vec<u64>,
        width: u32,
        height: u32,
        color: Color,
        background_color: Color,
    )
        requires
            old(self).wf(),
            width == old(self)@.width,
            height == old(self)@.height,
            bounded_draws(draws@),
            old(self)@.count + draws@.len() <= u128::MAX,
        ensures
            final(self).wf(),
            final(self)@ == gen_spec(old(self)@, draws@, color, background_color),
    {
        let ghost v0: FernView = self@;
        if !self.background_drawn {
            self.canvas.fill(background_color);
            self.background_drawn = true;
        }
        let ghost base: FernView = self@;
        proof {
            assert(view_wf(base));
            if v0.background_drawn {
                assert(base =~= v0);
            } else {
                assert(base =~= fill_view(v0, background_color));
            }
        }
        let n: usize = draws.len();
        let mut i: usize = 0;
        while i < n
            invariant
                i <= n,
                n == draws@.len(),
                bounded_draws(draws@),
                self.wf(),
                self@ == apply_draws(base, draws@.take(i as int), color),
            decreases n - i,
        {
            let r: u64 = draws[i];
            proof {
                assert(draws@.take(i + 1).drop_last() =~= draws@.take(i as int));
                assert(draws@.take(i + 1).last() == draws@[i as int]);
            }
            self.advance(r, color);
            i += 1;
        }
        proof {
            assert(draws@.take(n as int) =~= draws@);
            lemma_apply_draws_frame(base, draws@, color);
        }
        self.iterated_count = self.iterated_count + (n as u128);
        proof {
            assert(self@ =~= gen_spec(v0, draws@, color, background_color));
        }
    }

    /// One generation call driven by the random source: `iterations` fresh
    /// uniform draws, each applied as in [`gen_fern_steps`]. What came out of
    /// the random source is existentially bound: the result is `gen_spec` of
    /// the old state under some sequence of bounded draws.
    pub fn gen_fern(
        &mut self,
        iterations: u64,
        width: u32,
        height: u32,
        color: Color,
        background_color: Color,
    )
        requires
            old(self).wf(),
            width == old(self)@.width,
            height == old(self)@.height,
            old(self)@.count + iterations <= u128::MAX,
        ensures
            final(self).wf(),
            exists|draws: Seq<u64>|
                draws.len() == iterations as int && bounded_draws(draws) && final(self)@
                    == #[trigger] gen_spec(old(self)@, draws, color, background_color),
    {
        let ghost v0: FernView = self@;
        if !self.background_drawn {
            self.canvas.fill(background_color);
            self.background_drawn = true;
        }
        let ghost base: FernView = self@;
        proof {
            assert(view_wf(base));
            if v0.background_drawn {
                assert(base =~= v0);
            } else {
                assert(base =~= fill_view(v0, background_color));
            }
        }
        let mut i: u64 = 0;
        let ghost mut draws: Seq<u64> = Seq::empty();
        while i < iterations
            invariant
                i <= iterations,
                draws.len() == i as int,
                bounded_draws(draws),
                self.wf(),
                self@ == apply_draws(base, draws, color),
            decreases iterations - i,
        {
            let r: u64 = draw_unit_numerator();
            proof {
                let extended = draws.push(r);
                assert(extended.drop_last() =~= draws);
                assert(bounded_draws(extended)) by {
                    assert(forall|j: int|
                        0 <= j < draws.len() ==> extended[j] == #[trigger] draws[j]);
                }
                draws = extended;
            }
            self.advance(r, color);
            i += 1;
        }
        proof {
            lemma_apply_draws_frame(base, draws, color);
        }
        self.iterated_count = self.iterated_count + (iterations as u128);
        proof {
            assert(self@ =~= gen_spec(v0, draws, color, background_color));
        }
    }

    /// Clears the counter and the point and marks the background fill as owed
    /// again; the painted cells stay visible until the next generation call
    /// fills over them.
    pub fn reset(&mut self)
        requires
            old(self).wf(),
        ensures
            final(self).wf(),
            final(self)@ == reset_spec(old(self)@),
    {
        self.background_drawn = false;
        self.iterated_count = 0;
        self.point = FractalPoint::origin();
        proof {
            assert(self@ =~= reset_spec(old(self)@));
        }
    }

    /// A read-only view of the current raster, fit to hand to a display every
    /// frame: it is exactly the accumulator's canvas and nothing is mutated,
    /// so repeated calls without an intervening generation return the
    /// identical canvas.
    pub fn get_render_target(&self) -> (target: &Canvas)
        ensures
            *target == self.canvas,
            target@ == self@.cells,
    {
        &self.canvas
    }
}

} // verus!
