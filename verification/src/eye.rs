//! The angular eye sensor.
//!
//! The field-of-view angle, centered on the heading, is split into `cells`
//! equal contiguous wedges. A food item within the field-of-view range
//! contributes `(range - distance) / range` (so closer food contributes
//! more) to the wedge holding its direction; contributions accumulate,
//! clamped at one.
//!
//! Wedge membership is decided by exact integer cross products against the
//! wedge boundary direction vectors, which are precomputed from the sine
//! approximation when the eye is built. The boundary policy is fixed: a
//! wedge includes the food directions on its counterclockwise boundary ray
//! (cross product zero) and excludes its clockwise one; a food at the exact
//! sensor position satisfies no wedge test and contributes nothing.

use vstd::prelude::*;

use crate::fixed;
use crate::fixed::{FP_ONE, TAU_FX};
use crate::geom::{dist_fx, dist_sq_spec, in_world, sqrt_floor, Food, Point};

verus! {

/// The default field-of-view range (a quarter of the world's width).
pub const EYE_FOV_RANGE: i64 = 250_000;

/// The default field-of-view angle (five quarters of pi).
pub const EYE_FOV_ANGLE: i64 = 3_926_991;

/// The default cell count.
pub const EYE_CELLS: usize = 9;

/// The angle of wedge boundary `k`, measured clockwise from the heading and
/// normalized into `[0, TAU_FX)`: boundary `k` sits `k` wedge widths past
/// the counterclockwise edge of the field of view.
pub open spec fn bound_angle_spec(fov_angle: int, cells: int, k: int) -> int {
    let beta = k * (fov_angle / cells) - fov_angle / 2;
    if beta < 0 {
        beta + TAU_FX as int
    } else {
        beta
    }
}

/// The unit direction vector (sine, cosine) of wedge boundary `k`.
pub open spec fn bound_vec_spec(fov_angle: int, cells: int, k: int) -> (i64, i64) {
    let a = bound_angle_spec(fov_angle, cells, k);
    (fixed::sin_fx_spec(a) as i64, fixed::cos_fx_spec(a) as i64)
}

/// The cross product of a boundary direction with a relative vector:
/// negative when the vector points clockwise of the boundary.
pub open spec fn cross_spec(b: (i64, i64), rx: int, ry: int) -> int {
    b.0 * ry - b.1 * rx
}

/// The rightward component of the food offset, rotated into the heading
/// frame.
pub open spec fn rel_x_spec(pos: Point, rot: int, f: Point) -> int {
    fixed::fx_mul_spec(f.x - pos.x, fixed::cos_fx_spec(rot)) - fixed::fx_mul_spec(
        f.y - pos.y,
        fixed::sin_fx_spec(rot),
    )
}

/// The forward component of the food offset, rotated into the heading
/// frame.
pub open spec fn rel_y_spec(pos: Point, rot: int, f: Point) -> int {
    fixed::fx_mul_spec(f.x - pos.x, fixed::sin_fx_spec(rot)) + fixed::fx_mul_spec(
        f.y - pos.y,
        fixed::cos_fx_spec(rot),
    )
}

/// A visible food's contribution to its wedge, inversely proportional to
/// distance.
pub open spec fn contribution_spec(fov_range: int, dist: int) -> int {
    ((fov_range - dist) * (FP_ONE as int)) / fov_range
}

/// The eye sensor configuration, with its precomputed wedge boundary
/// directions.
pub struct Eye {
    pub fov_range: i64,
    pub fov_angle: i64,
    pub cells: usize,
    pub bounds: Vec<(i64, i64)>,
}

impl Eye {
    /// The configuration invariant: positive range, an angle within one
    /// turn, at least one cell, and one correctly placed boundary vector
    /// per wedge edge.
    pub open spec fn wf(&self) -> bool {
        &&& 0 < self.fov_range
        &&& 0 < self.fov_angle <= TAU_FX
        &&& 1 <= self.cells
        &&& self.bounds@.len() == self.cells + 1
        &&& forall|k: int|
            0 <= k <= self.cells ==> #[trigger] self.bounds@[k] == bound_vec_spec(
                self.fov_angle as int,
                self.cells as int,
                k,
            )
        &&& forall|k: int|
            0 <= k <= self.cells ==> -FP_ONE <= #[trigger] self.bounds@[k].0 <= FP_ONE && -FP_ONE
                <= self.bounds@[k].1 <= FP_ONE
    }

    /// The relative vector lies in wedge `k`: on or clockwise of boundary
    /// `k`, strictly counterclockwise of boundary `k + 1`.
    pub open spec fn in_wedge_spec(&self, rx: int, ry: int, k: int) -> bool {
        &&& cross_spec(self.bounds@[k], rx, ry) <= 0
        &&& cross_spec(self.bounds@[k + 1], rx, ry) > 0
    }

    /// What one food adds to cell `k`: its contribution if it is within
    /// range and its direction falls in wedge `k`, else nothing.
    pub open spec fn food_cell_add(&self, pos: Point, rot: int, f: Food, k: int) -> int {
        let dist = sqrt_floor(dist_sq_spec(pos, f.position));
        if dist <= self.fov_range && self.in_wedge_spec(
            rel_x_spec(pos, rot, f.position),
            rel_y_spec(pos, rot, f.position),
            k,
        ) {
            contribution_spec(self.fov_range as int, dist)
        } else {
            0
        }
    }

    /// Cell `k`'s value: the foods' contributions accumulated in order,
    /// clamped at one.
    pub open spec fn cell_value_spec(&self, pos: Point, rot: int, foods: Seq<Food>, k: int) -> int
        decreases foods.len(),
    {
        if foods.len() == 0 {
            0
        } else {
            let prev = self.cell_value_spec(pos, rot, foods.drop_last(), k);
            let add = self.food_cell_add(pos, rot, foods.last(), k);
            if prev + add > FP_ONE as int {
                FP_ONE as int
            } else {
                prev + add
            }
        }
    }

    /// The whole perception vector: one clamped cell value per wedge.
    pub open spec fn vision_spec(&self, pos: Point, rot: int, foods: Seq<Food>) -> Seq<i64> {
        Seq::new(self.cells as nat, |k: int| self.cell_value_spec(pos, rot, foods, k) as i64)
    }

    /// The cell count.
    pub fn cells(&self) -> (r: usize)
        ensures
            r == self.cells,
    {
        self.cells
    }

    /// Builds an eye, precomputing the wedge boundary directions.
    pub fn new(fov_range: i64, fov_angle: i64, cells: usize) -> (r: Eye)
        requires
            0 < fov_range,
            0 < fov_angle <= TAU_FX,
            1 <= cells,
            cells < usize::MAX,
        ensures
            r.wf(),
            r.fov_range == fov_range,
            r.fov_angle == fov_angle,
            r.cells == cells,
    {
        let step: i64 = ((fov_angle as u64) / (cells as u64)) as i64;
        let half: i64 = ((fov_angle as u64) / 2) as i64;
        proof {
            vstd::arithmetic::div_mod::lemma_fundamental_div_mod(fov_angle as int, cells as int);
            assert((cells as int) * (fov_angle as int / cells as int) <= fov_angle as int);
            vstd::arithmetic::div_mod::lemma_div_basics_4(fov_angle as int, cells as int);
            vstd::arithmetic::div_mod::lemma_div_basics_4(fov_angle as int, 2);
            vstd::arithmetic::div_mod::lemma_fundamental_div_mod(fov_angle as int, 2);
        }
        let mut bounds: Vec<(i64, i64)> = Vec::new();
        let mut k: usize = 0;
        let mut ks: i64 = 0;
        while k <= cells
            invariant
                k <= cells + 1,
                0 < fov_angle <= TAU_FX,
                1 <= cells,
                cells < usize::MAX,
                step as int == fov_angle as int / cells as int,
                half as int == fov_angle as int / 2,
                0 <= step,
                0 <= half,
                2 * half <= fov_angle,
                fov_angle <= 2 * half + 1,
                half <= fixed::PI_FX,
                (cells as int) * (step as int) <= fov_angle as int,
                k <= cells ==> ks as int == (k as int) * (step as int),
                0 <= ks,
                k <= cells ==> ks <= fov_angle,
                bounds@.len() == k,
                forall|i: int|
                    0 <= i < k ==> #[trigger] bounds@[i] == bound_vec_spec(
                        fov_angle as int,
                        cells as int,
                        i,
                    ),
                forall|i: int|
                    0 <= i < k ==> -FP_ONE <= #[trigger] bounds@[i].0 <= FP_ONE && -FP_ONE
                        <= bounds@[i].1 <= FP_ONE,
            decreases cells + 1 - k,
        {
            let beta: i64 = ks - half;
            let norm: i64 = if beta < 0 {
                beta + TAU_FX
            } else {
                beta
            };
            proof {
                assert(norm < TAU_FX);
                assert(0 <= norm);
                assert(norm as int == bound_angle_spec(fov_angle as int, cells as int, k as int));
            }
            let sv = fixed::sin_fx(norm);
            let cv = fixed::cos_fx(norm);
            proof {
                fixed::lemma_sin_fx_spec_bounds(norm as int);
                fixed::lemma_cos_fx_spec_bounds(norm as int);
            }
            bounds.push((sv, cv));
            proof {
                if k < cells {
                    assert((k as int + 1) * (step as int) == (k as int) * (step as int)
                        + step as int) by (nonlinear_arith);
                    assert((k as int + 1) * (step as int) <= (cells as int) * (step as int))
                        by (nonlinear_arith)
                        requires
                            k as int + 1 <= cells as int,
                            0 <= step as int,
                    ;
                }
            }
            if k < cells {
                ks = ks + step;
            }
            k = k + 1;
        }
        Eye { fov_range, fov_angle, cells, bounds }
    }

    /// The perception vector for an animal at `position` heading `rotation`
    /// against the given food layout: always exactly `cells` values, each
    /// between zero and one, whatever the food count.
    pub fn process_vision(&self, position: Point, rotation: i64, foods: &Vec<Food>) -> (r: Vec<
        i64,
    >)
        requires
            self.wf(),
            in_world(position),
            0 <= rotation < TAU_FX,
            forall|j: int| 0 <= j < foods@.len() ==> in_world(#[trigger] foods@[j].position),
        ensures
            r@ == self.vision_spec(position, rotation as int, foods@),
            r@.len() == self.cells,
            forall|k: int| 0 <= k < r@.len() ==> 0 <= #[trigger] r@[k] <= FP_ONE,
    {
        let sv = fixed::sin_fx(rotation);
        let cv = fixed::cos_fx(rotation);
        let mut out: Vec<i64> = Vec::new();
        let mut k: usize = 0;
        while k < self.cells
            invariant
                k <= self.cells,
                self.wf(),
                in_world(position),
                0 <= rotation < TAU_FX,
                forall|j: int| 0 <= j < foods@.len() ==> in_world(#[trigger] foods@[j].position),
                sv as int == fixed::sin_fx_spec(rotation as int),
                cv as int == fixed::cos_fx_spec(rotation as int),
                -FP_ONE <= sv <= FP_ONE,
                -FP_ONE <= cv <= FP_ONE,
                out@.len() == k,
                forall|i: int|
                    0 <= i < k ==> #[trigger] out@[i] as int == self.cell_value_spec(
                        position,
                        rotation as int,
                        foods@,
                        i,
                    ),
                forall|i: int| 0 <= i < k ==> 0 <= #[trigger] out@[i] <= FP_ONE,
            decreases self.cells - k,
        {
            let mut acc: i64 = 0;
            let mut j: usize = 0;
            while j < foods.len()
                invariant
                    j <= foods@.len(),
                    k < self.cells,
                    self.wf(),
                    in_world(position),
                    0 <= rotation < TAU_FX,
                    forall|jj: int|
                        0 <= jj < foods@.len() ==> in_world(#[trigger] foods@[jj].position),
                    sv as int == fixed::sin_fx_spec(rotation as int),
                    cv as int == fixed::cos_fx_spec(rotation as int),
                    -FP_ONE <= sv <= FP_ONE,
                    -FP_ONE <= cv <= FP_ONE,
                    acc as int == self.cell_value_spec(
                        position,
                        rotation as int,
                        foods@.take(j as int),
                        k as int,
                    ),
                    0 <= acc <= FP_ONE,
                decreases foods@.len() - j,
            {
                let f = foods[j];
                let add: i64 = self.food_cell_add_exec(position, sv, cv, f, k, Ghost(rotation as int));
                acc = acc + add;
                if acc > FP_ONE {
                    acc = FP_ONE;
                }
                proof {
                    assert(foods@.take(j as int + 1).drop_last() =~= foods@.take(j as int));
                    assert(foods@.take(j as int + 1).last() == foods@[j as int]);
                }
                j = j + 1;
            }
            proof {
                assert(foods@.take(foods@.len() as int) =~= foods@);
            }
            out.push(acc);
            k = k + 1;
        }
        proof {
            assert(out@ =~= self.vision_spec(position, rotation as int, foods@));
        }
        out
    }

    /// One food's addition to cell `k`, from the precomputed heading sine
    /// and cosine.
    fn food_cell_add_exec(
        &self,
        position: Point,
        sv: i64,
        cv: i64,
        f: Food,
        k: usize,
        rot: Ghost<int>,
    ) -> (r: i64)
        requires
            self.wf(),
            in_world(position),
            in_world(f.position),
            k < self.cells,
            sv as int == fixed::sin_fx_spec(rot@),
            cv as int == fixed::cos_fx_spec(rot@),
            -FP_ONE <= sv <= FP_ONE,
            -FP_ONE <= cv <= FP_ONE,
        ensures
            r as int == self.food_cell_add(position, rot@, f, k as int),
            0 <= r <= FP_ONE,
    {
        let dist = dist_fx(position, f.position);
        if dist > self.fov_range {
            return 0;
        }
        let dx: i64 = f.position.x - position.x;
        let dy: i64 = f.position.y - position.y;
        proof {
            fixed::lemma_fx_mul_bounded(dx as int, cv as int, FP_ONE as int);
            fixed::lemma_fx_mul_bounded(dy as int, sv as int, FP_ONE as int);
            fixed::lemma_fx_mul_bounded(dx as int, sv as int, FP_ONE as int);
            fixed::lemma_fx_mul_bounded(dy as int, cv as int, FP_ONE as int);
        }
        let rx: i64 = fixed::fx_mul(dx, cv) - fixed::fx_mul(dy, sv);
        let ry: i64 = fixed::fx_mul(dx, sv) + fixed::fx_mul(dy, cv);
        let b_lo = self.bounds[k];
        let b_hi = self.bounds[k + 1];
        proof {
            let big = 2 * (FP_ONE as int) * (FP_ONE as int);
            assert(-big <= (b_lo.0 as int) * (ry as int) <= big && -big <= (b_lo.1 as int) * (
            rx as int) <= big && -big <= (b_hi.0 as int) * (ry as int) <= big && -big <= (
            b_hi.1 as int) * (rx as int) <= big) by (nonlinear_arith)
                requires
                    big == 2 * (FP_ONE as int) * (FP_ONE as int),
                    -(FP_ONE as int) <= b_lo.0 as int <= FP_ONE as int,
                    -(FP_ONE as int) <= b_lo.1 as int <= FP_ONE as int,
                    -(FP_ONE as int) <= b_hi.0 as int <= FP_ONE as int,
                    -(FP_ONE as int) <= b_hi.1 as int <= FP_ONE as int,
                    -2 * (FP_ONE as int) <= rx as int <= 2 * (FP_ONE as int),
                    -2 * (FP_ONE as int) <= ry as int <= 2 * (FP_ONE as int),
            ;
        }
        let cr_lo: i128 = (b_lo.0 as i128) * (ry as i128) - (b_lo.1 as i128) * (rx as i128);
        let cr_hi: i128 = (b_hi.0 as i128) * (ry as i128) - (b_hi.1 as i128) * (rx as i128);
        proof {
            assert(cr_lo as int == cross_spec(self.bounds@[k as int], rx as int, ry as int));
            assert(cr_hi as int == cross_spec(self.bounds@[k as int + 1], rx as int, ry as int));
        }
        if cr_lo <= 0 && cr_hi > 0 {
            let num: u128 = ((self.fov_range - dist) as u128) * (FP_ONE as u128);
            let q: u128 = num / (self.fov_range as u128);
            proof {
                assert(num as int <= (FP_ONE as int) * (self.fov_range as int)) by (nonlinear_arith)
                    requires
                        num as int == (self.fov_range as int - dist as int) * (FP_ONE as int),
                        0 <= dist,
                        dist <= self.fov_range,
                ;
                fixed::lemma_div_le(num as int, FP_ONE as int, self.fov_range as int);
                vstd::arithmetic::div_mod::lemma_div_basics_4(num as int, self.fov_range as int);
            }
            q as i64
        } else {
            0
        }
    }
}

/// The standard eye configuration.
impl Default for Eye {
    fn default() -> (r: Eye)
        ensures
            r.wf(),
            r.fov_range == EYE_FOV_RANGE,
            r.fov_angle == EYE_FOV_ANGLE,
            r.cells == EYE_CELLS,
    {
        Eye::new(EYE_FOV_RANGE, EYE_FOV_ANGLE, EYE_CELLS)
    }
}

} // verus!
