//! The conditions of polynomial fits.

use vstd::prelude::*;
use crate::binary64::Real;
use crate::text;
use crate::text::push_nat;

verus! {

/// A point to fit.
#[derive(Debug, Clone, Copy, PartialEq, Eq, Structural)]
pub struct Point {
    pub x: Real,
    pub y: Real,
}

/// Whether all points are finite.
pub open spec fn all_finite(points: Seq<Point>) -> bool {
    forall|i: int| 0 <= i < points.len() ==> (#[trigger] points[i]).x.finite() && points[i].y.finite()
}

/// The number of coefficients of a polynomial.
pub open spec fn coefficient_count(order: usize) -> int {
    if order == usize::MAX {
        usize::MAX as int
    } else {
        order + 1
    }
}

/// Why points cannot be fitted.
pub open spec fn fit_fault(points: Seq<Point>, order: usize) -> Option<Seq<char>> {
    if points.len() == 0 {
        Some("Polynomial fit requires at least one calibration point"@)
    } else if coefficient_count(order) > points.len() {
        Some(
            "Polynomial fit of order "@ + text::nat_text(order as nat) + " requires at least "@
                + text::nat_text(coefficient_count(order) as nat) + " points; got "@
                + text::nat_text(points.len()),
        )
    } else if !all_finite(points) {
        Some("Polynomial fit requires finite calibration points"@)
    } else {
        None
    }
}

/// Checks points before a fit, and gives the number of coefficients.
pub fn check_fit(points: &[Point], order: usize) -> (r: Result<usize, String>)
    ensures
        match r {
            Ok(n) => fit_fault(points@, order) is None && n == coefficient_count(order),
            Err(e) => fit_fault(points@, order) == Some(e@),
        },
{
    let count: usize = order.saturating_add(1);
    if points.len() == 0 {
        return Err("Polynomial fit requires at least one calibration point".to_owned());
    }
    if count > points.len() {
        let mut e = "Polynomial fit of order ".to_owned();
        push_nat(&mut e, order as u128);
        e.push_str(" requires at least ");
        push_nat(&mut e, count as u128);
        e.push_str(" points; got ");
        push_nat(&mut e, points.len() as u128);
        return Err(e);
    }
    let mut i: usize = 0;
    while i < points.len()
        invariant
            i <= points@.len(),
            points@.len() > 0,
            coefficient_count(order) <= points@.len(),
            forall|k: int|
                0 <= k < i ==> (#[trigger] points@[k]).x.finite() && points@[k].y.finite(),
        decreases points@.len() - i,
    {
        if !points[i].x.is_finite() || !points[i].y.is_finite() {
            assert(!(points@[i as int].x.finite() && points@[i as int].y.finite()));
            return Err("Polynomial fit requires finite calibration points".to_owned());
        }
        i = i + 1;
    }
    Ok(count)
}

/// Accepts the outcome of a fit: it ended well, and all coefficients are finite.
/// `termination` and `objective` show how it ended.
pub fn check_outcome(
    successful: bool,
    termination: &str,
    objective: &str,
    coefficients: Vec<Real>,
) -> (r: Result<Vec<Real>, String>)
    ensures
        match r {
            Ok(c) => successful && c == coefficients && forall|i: int|
                0 <= i < c@.len() ==> (#[trigger] c@[i]).finite(),
            Err(e) => if !successful {
                e@ == "Polynomial fit failed: "@ + termination@ + " (objective "@ + objective@
                    + ")"@
            } else {
                e@ == "Polynomial fit produced non-finite coefficients"@ && exists|i: int|
                    0 <= i < coefficients@.len() && !(#[trigger] coefficients@[i]).finite()
            },
        },
{
    if !successful {
        let mut e = "Polynomial fit failed: ".to_owned();
        e.push_str(termination);
        e.push_str(" (objective ");
        e.push_str(objective);
        e.push_str(")");
        return Err(e);
    }
    let mut i: usize = 0;
    while i < coefficients.len()
        invariant
            i <= coefficients@.len(),
            successful,
            forall|k: int| 0 <= k < i ==> (#[trigger] coefficients@[k]).finite(),
        decreases coefficients@.len() - i,
    {
        if !coefficients[i].is_finite() {
            assert(!coefficients@[i as int].finite());
            return Err("Polynomial fit produced non-finite coefficients".to_owned());
        }
        i = i + 1;
    }
    Ok(coefficients)
}

/// A polynomial can be fitted exactly where there are more points than its order says,
/// and each has finite coordinates.
pub proof fn law_enough_finite_points_are_fitted(points: Seq<Point>, order: usize)
    requires
        points.len() <= usize::MAX,
    ensures
        fit_fault(points, order) is None <==> {
            &&& points.len() > 0
            &&& order < points.len() || order == usize::MAX && points.len() == usize::MAX
            &&& forall|i: int|
                0 <= i < points.len() ==> (#[trigger] points[i]).x.finite() && points[i].y.finite()
        },
{
}

} // verus!
