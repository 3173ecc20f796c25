//! The integer logic of interest rate curves: curve methods, the checks that build a
//! curve, the choice of method for a maturity and the vertices an interpolation uses.
use vstd::prelude::*;

use crate::calendar::{calendar_safe, calendar_is_bday};
use crate::date::Date;
use crate::daycount::DayCount;

verus! {

/// Why a curve could not be built. `R` is the type of a zero rate.
#[derive(Debug, Clone)]
pub enum Error<R> {
    /// The curve date is not a business day of the curve's calendar.
    InvalidCurveDate { asof: Date },
    /// The days to maturity of the vertices are not strictly increasing.
    UnsortedOrDuplicates { dtm: Vec<i32> },
    /// There are no vertices, or not one zero rate for each of them.
    BadSize { dtm: Vec<i32>, zero_rates: Vec<R> },
}

/// How zero rates are interpolated between (or extrapolated beyond) the vertices.
#[derive(Clone, Copy, Debug, PartialEq, Eq, Hash, Structural)]
pub enum InterpolationMethod {
    FlatForwardInterpolation,
    LinearInterpolation,
    StepFunction,
    CubicSplineOnRates,
}

impl InterpolationMethod {
    pub fn is_cubic_spline_on_rates(&self) -> (res: bool)
        ensures
            res == (*self is CubicSplineOnRates),
    {
        match self {
            InterpolationMethod::CubicSplineOnRates => true,
            _ => false,
        }
    }
}

/// Parametric curve models.
#[derive(Clone, Copy, Debug, PartialEq, Eq, Hash, Structural)]
pub enum ParametricMethod {
    NelsonSiegel,
    Svensson,
}

/// How a curve gives the zero rate of a maturity.
#[derive(Clone, Copy, Debug, PartialEq, Eq, Hash, Structural)]
pub enum CurveMethod {
    /// Interpolation on vertices, with one method before the first vertex, one between the
    /// first and the last, and one after the last.
    Interpolation {
        before_first: InterpolationMethod,
        inner: InterpolationMethod,
        after_last: InterpolationMethod,
    },
    /// A parametric model.
    Parametric(ParametricMethod),
}

/// Whether some part of the curve method is a cubic spline on rates.
pub open spec fn spline_needed(method: CurveMethod) -> bool {
    match method {
        CurveMethod::Parametric(_) => false,
        CurveMethod::Interpolation { before_first, inner, after_last } => {
            before_first is CubicSplineOnRates || inner is CubicSplineOnRates
                || after_last is CubicSplineOnRates
        },
    }
}

impl CurveMethod {
    pub fn is_interpolation_method(&self) -> (res: bool)
        ensures
            res == (*self is Interpolation),
    {
        match self {
            CurveMethod::Parametric(_) => false,
            CurveMethod::Interpolation { .. } => true,
        }
    }

    /// Whether a curve of this method needs a spline fitted on its zero rates.
    pub fn needs_spline_on_rates(&self) -> (res: bool)
        ensures
            res == spline_needed(*self),
    {
        match self {
            CurveMethod::Parametric(_) => false,
            CurveMethod::Interpolation { before_first, inner, after_last } => {
                before_first.is_cubic_spline_on_rates() || inner.is_cubic_spline_on_rates()
                    || after_last.is_cubic_spline_on_rates()
            },
        }
    }
}

/// Every element of `s` is smaller than every later one.
pub open spec fn strictly_increasing(s: Seq<i32>) -> bool {
    forall|i: int, j: int| 0 <= i < j < s.len() ==> s[i] < s[j]
}

/// The curve date is refused: it is not a business day of a business-day count's calendar.
pub open spec fn curve_date_refused(asof: Date, daycount: DayCount) -> bool {
    daycount matches DayCount::BDays252(cal) && !calendar_is_bday(cal, asof@)
}

/// The curve dates that a business-day count can check.
pub open spec fn curve_date_checkable(asof: Date, daycount: DayCount) -> bool {
    daycount matches DayCount::BDays252(cal) ==> calendar_safe(cal, asof@)
}

/// What building a curve on vertices gives: the first failing check, in the order date,
/// order of the vertices, sizes; or the vertices themselves.
pub open spec fn points_outcome<R>(
    asof: Date,
    daycount: DayCount,
    dtm: Vec<i32>,
    zero_rates: Vec<R>,
) -> Result<(Vec<i32>, Vec<R>), Error<R>> {
    if curve_date_refused(asof, daycount) {
        Err(Error::InvalidCurveDate { asof })
    } else if !strictly_increasing(dtm@) {
        Err(Error::UnsortedOrDuplicates { dtm })
    } else if dtm.len() == 0 || dtm.len() != zero_rates.len() {
        Err(Error::BadSize { dtm, zero_rates })
    } else {
        Ok((dtm, zero_rates))
    }
}

/// The check of a curve date: a curve on a business-day count must start on a business day.
pub fn check_curve_date<R>(asof: Date, daycount: &DayCount) -> (res: Result<(), Error<R>>)
    requires
        curve_date_checkable(asof, *daycount),
    ensures
        res is Err <==> curve_date_refused(asof, *daycount),
        res matches Err(e) ==> e == (Error::<R>::InvalidCurveDate { asof }),
{
    if let DayCount::BDays252(cal) = daycount {
        if !cal.is_bday(asof) {
            return Err(Error::InvalidCurveDate { asof });
        }
    }
    Ok(())
}

/// Whether each element of `x` is smaller than the next one.
pub fn is_strictly_increasing(x: &[i32]) -> (res: bool)
    ensures
        res == strictly_increasing(x@),
{
    let n = x.len();
    if n < 2 {
        return true;
    }
    let mut k: usize = 1;
    while k < n
        invariant
            1 <= k <= n,
            n == x@.len(),
            strictly_increasing(x@.subrange(0, k as int)),
        decreases n - k,
    {
        if x[k - 1] >= x[k] {
            assert(!strictly_increasing(x@)) by {
                assert(x@[k - 1] >= x@[k as int]);
            }
            return false;
        }
        assert forall|i: int, j: int| 0 <= i < j < k + 1 implies #[trigger] x@.subrange(
            0,
            k + 1,
        )[i] < #[trigger] x@.subrange(0, k + 1)[j] by {
            if j < k {
                assert(x@.subrange(0, k as int)[i] < x@.subrange(0, k as int)[j]);
            } else if i < k - 1 {
                assert(x@.subrange(0, k as int)[i] < x@.subrange(0, k as int)[k - 1]);
            }
        }
        k = k + 1;
    }
    assert(x@.subrange(0, n as int) =~= x@);
    true
}

/// The checks that build a curve on vertices `dtm` with zero rates `zero_rates`: the curve
/// date, then the order of the vertices, then the sizes. On success the vertices come back.
pub fn check_curve_points<R>(
    asof: Date,
    daycount: &DayCount,
    dtm: Vec<i32>,
    zero_rates: Vec<R>,
) -> (res: Result<(Vec<i32>, Vec<R>), Error<R>>)
    requires
        curve_date_checkable(asof, *daycount),
    ensures
        res == points_outcome(asof, *daycount, dtm, zero_rates),
{
    match check_curve_date::<R>(asof, daycount) {
        Err(e) => return Err(e),
        Ok(()) => {},
    }

    if !is_strictly_increasing(dtm.as_slice()) {
        return Err(Error::UnsortedOrDuplicates { dtm });
    }

    if dtm.len() == 0 || dtm.len() != zero_rates.len() {
        return Err(Error::BadSize { dtm, zero_rates });
    }

    Ok((dtm, zero_rates))
}

/// How the zero rate of a maturity is found.
#[derive(Clone, Copy, Debug, PartialEq, Eq, Structural)]
pub enum ZeroRateMethod {
    /// The curve has a single vertex: its zero rate holds for every maturity.
    Flat,
    /// Interpolation on the vertices with this method.
    Interpolated(InterpolationMethod),
    /// The parametric model.
    Parametric(ParametricMethod),
}

/// The method for a maturity `dtm_out` days away on a curve with vertices `dtm`: a curve of
/// one vertex is flat; otherwise the method before the first vertex, after the last one, or
/// the inner one (the vertices themselves included).
pub open spec fn zero_rate_method_of(method: CurveMethod, dtm: Seq<i32>, dtm_out: i32) -> ZeroRateMethod {
    match method {
        CurveMethod::Interpolation { before_first, inner, after_last } => {
            if dtm.len() == 1 {
                ZeroRateMethod::Flat
            } else if dtm_out < dtm[0] {
                ZeroRateMethod::Interpolated(before_first)
            } else if dtm_out > dtm[dtm.len() - 1] {
                ZeroRateMethod::Interpolated(after_last)
            } else {
                ZeroRateMethod::Interpolated(inner)
            }
        },
        CurveMethod::Parametric(p) => ZeroRateMethod::Parametric(p),
    }
}

/// The method that gives the zero rate of a maturity `dtm_out` days away.
pub fn zero_rate_method(method: &CurveMethod, dtm: &[i32], dtm_out: i32) -> (res: ZeroRateMethod)
    requires
        *method is Interpolation ==> dtm.len() >= 1,
    ensures
        res == zero_rate_method_of(*method, dtm@, dtm_out),
{
    if method.is_interpolation_method() && dtm.len() == 1 {
        return ZeroRateMethod::Flat;
    }
    match method {
        CurveMethod::Interpolation { before_first, inner, after_last } => {
            if dtm_out < dtm[0] {
                ZeroRateMethod::Interpolated(*before_first)
            } else if dtm_out > dtm[dtm.len() - 1] {
                ZeroRateMethod::Interpolated(*after_last)
            } else {
                ZeroRateMethod::Interpolated(*inner)
            }
        },
        CurveMethod::Parametric(p) => ZeroRateMethod::Parametric(*p),
    }
}

/// Every element of `s` is at most every later one.
pub open spec fn sorted(s: Seq<i32>) -> bool {
    forall|i: int, j: int| 0 <= i < j < s.len() ==> s[i] <= s[j]
}

/// Whether each element of `x` is at most the next one.
pub fn is_sorted(x: &[i32]) -> (res: bool)
    ensures
        res == sorted(x@),
{
    let n = x.len();
    if n < 2 {
        return true;
    }
    let mut k: usize = 1;
    while k < n
        invariant
            1 <= k <= n,
            n == x@.len(),
            sorted(x@.subrange(0, k as int)),
        decreases n - k,
    {
        if x[k - 1] > x[k] {
            assert(!sorted(x@)) by {
                assert(x@[k - 1] > x@[k as int]);
            }
            return false;
        }
        assert forall|i: int, j: int| 0 <= i < j < k + 1 implies #[trigger] x@.subrange(
            0,
            k + 1,
        )[i] <= #[trigger] x@.subrange(0, k + 1)[j] by {
            if j < k {
                assert(x@.subrange(0, k as int)[i] <= x@.subrange(0, k as int)[j]);
            } else if i < k - 1 {
                assert(x@.subrange(0, k as int)[i] <= x@.subrange(0, k as int)[k - 1]);
            }
        }
        k = k + 1;
    }
    assert(x@.subrange(0, n as int) =~= x@);
    true
}

/// The inputs on which `interpolation_points` finds two vertices, the first one before the
/// second: at least two sorted vertices (unsorted ones make it panic), and the first two
/// (or the last two) distinct when `x_out` lies before the first vertex (or from the last
/// one on).
pub open spec fn interpolation_points_defined(x: Seq<i32>, x_out: i32) -> bool {
    &&& x.len() >= 2
    &&& sorted(x)
    &&& x_out <= x[0] ==> x[0] < x[1]
    &&& x[0] < x_out && x_out >= x[x.len() - 1] ==> x[x.len() - 2] < x[x.len() - 1]
}

/// Whether `interpolation_points` finds two vertices of `x` for `x_out`.
pub fn has_interpolation_points(x: &[i32], x_out: i32) -> (res: bool)
    ensures
        res == interpolation_points_defined(x@, x_out),
{
    let n = x.len();
    if n < 2 || !is_sorted(x) {
        return false;
    }
    if x_out <= x[0] {
        x[0] < x[1]
    } else if x_out >= x[n - 1] {
        x[n - 2] < x[n - 1]
    } else {
        true
    }
}

/// Indices `(index_a, index_b)` of the two vertices of `x` (which should be sorted, with
/// at least 2 distinct points) that a linear interpolation at `x_out` uses: the first two before the first vertex, the last two from the last vertex
/// on, and otherwise the last vertex before `x_out` and the one after it.
pub fn interpolation_points(x: &[i32], x_out: i32) -> (res: (usize, usize))
    requires
        interpolation_points_defined(x@, x_out),
    ensures
        res.0 < res.1 < x.len(),
        x[res.0 as int] < x[res.1 as int],
        x_out <= x[0] ==> res == (0usize, 1usize),
        x[0] < x_out && x_out >= x[x.len() - 1] ==> res == ((x.len() - 2) as usize, (x.len()
            - 1) as usize),
        x[0] < x_out < x[x.len() - 1] ==> {
            &&& res.1 == res.0 + 1
            &&& x[res.0 as int] < x_out <= x[res.1 as int]
            &&& forall|j: int| res.0 < j < x.len() ==> x[j] >= x_out
        },
{
    let n = x.len();
    let index_a: usize;
    let index_b: usize;

    if x_out <= x[0] {
        // before the first vertex: the slope of the first two
        index_a = 0;
        index_b = 1;
    } else if x_out >= x[n - 1] {
        // from the last vertex on: the slope of the last two
        index_b = n - 1;
        index_a = index_b - 1;
    } else {
        // inner point: the last vertex before x_out, and the next one
        let mut i: usize = n - 1;
        while x[i] >= x_out
            invariant
                0 <= i < n,
                n == x@.len(),
                x@[0] < x_out,
                forall|j: int| i < j < n ==> x@[j] >= x_out,
            decreases i,
        {
            i = i - 1;
        }
        index_a = i;
        index_b = index_a + 1;
    }

    (index_a, index_b)
}

/// The inputs on which `step_function_interpolation` has a value to give: some vertices,
/// some values, and a value for the last vertex not after an inner `x_out`.
pub open spec fn step_function_defined<T>(x: Seq<i32>, y: Seq<T>, x_out: i32) -> bool {
    &&& x.len() >= 1
    &&& y.len() >= 1
    &&& x[0] < x_out < x[x.len() - 1] ==> forall|j: int| y.len() <= j < x.len() ==> x[j] > x_out
}

/// Whether `step_function_interpolation` has a value for `x_out`.
pub fn has_step_function_value<T>(x: &[i32], y: &[T], x_out: i32) -> (res: bool)
    ensures
        res == step_function_defined(x@, y@, x_out),
{
    let n = x.len();
    if n < 1 || y.len() < 1 {
        return false;
    }
    if !(x[0] < x_out && x_out < x[n - 1]) {
        return true;
    }
    let mut j: usize = y.len();
    while j < n
        invariant
            y@.len() <= j,
            n == x@.len(),
            x@[0] < x_out < x@[n - 1],
            forall|k: int| y@.len() <= k < j ==> x@[k] > x_out,
        decreases n - j,
    {
        if x[j] <= x_out {
            assert(x@[j as int] <= x_out);
            return false;
        }
        j = j + 1;
    }
    true
}

/// Step-function interpolation at `x_out` of the values `y` on the vertices `x`: the first
/// value up to the first vertex, the last value from the last vertex on, and otherwise the
/// value of the last vertex not after `x_out`.
pub fn step_function_interpolation<T: Copy>(x: &[i32], y: &[T], x_out: i32) -> (res: T)
    requires
        step_function_defined(x@, y@, x_out),
    ensures
        x_out <= x[0] ==> res == y[0],
        x[0] < x_out && x_out >= x[x.len() - 1] ==> res == y[y.len() - 1],
        x[0] < x_out < x[x.len() - 1] ==> exists|pos: int| {
            &&& 0 <= pos < y.len()
            &&& x[pos] <= x_out
            &&& (forall|j: int| pos < j < x.len() ==> x[j] > x_out)
            &&& res == y[pos]
        },
{
    let n = x.len();
    if x_out <= x[0] {
        y[0]
    } else if x_out >= x[n - 1] {
        y[y.len() - 1]
    } else {
        let mut pos: usize = n - 1;
        while x[pos] > x_out
            invariant
                0 <= pos < n,
                n == x@.len(),
                x@[0] < x_out,
                forall|j: int| pos < j < n ==> x@[j] > x_out,
            decreases pos,
        {
            pos = pos - 1;
        }
        assert(pos < y.len());
        y[pos]
    }
}

/// Which polynomial of a spline on the knots `x` gives its value at `x_out`.
#[derive(Clone, Copy, Debug, PartialEq, Eq, Structural)]
pub enum SplinePiece {
    /// Extrapolation after the last knot.
    AfterLast,
    /// Extrapolation before the first knot.
    BeforeFirst,
    /// The polynomial that starts at knot `i`.
    Segment(usize),
}

/// The polynomial of a spline on the knots `x` that gives its value at `x_out`: past the
/// last knot or before the first one, an extrapolation; otherwise the first segment
/// `i` whose end `x[i + 1]` is not before `x_out` (all knots from `x[1]` to `x[i]` come
/// before `x_out`).
pub fn spline_piece(x: &[i32], x_out: i32) -> (res: SplinePiece)
    requires
        x.len() >= 2,
    ensures
        x_out > x[x.len() - 1] ==> res == SplinePiece::AfterLast,
        x_out <= x[x.len() - 1] && x_out < x[0] ==> res == SplinePiece::BeforeFirst,
        x[0] <= x_out <= x[x.len() - 1] ==> (res matches SplinePiece::Segment(i) && {
            &&& i + 1 < x.len()
            &&& x_out <= x[i + 1]
            &&& forall|j: int| 1 <= j <= i ==> x[j] < x_out
        }),
{
    let n = x.len();
    if x_out > x[n - 1] {
        SplinePiece::AfterLast
    } else if x_out < x[0] {
        SplinePiece::BeforeFirst
    } else {
        let mut i: usize = 0;
        while x_out > x[i + 1]
            invariant
                i + 1 < n,
                n == x@.len(),
                x_out <= x@[n - 1],
                forall|j: int| 1 <= j <= i ==> x@[j] < x_out,
            decreases n - i,
        {
            i = i + 1;
        }
        SplinePiece::Segment(i)
    }
}

/// The vertices of a curve that the checks let through are strictly increasing and not
/// empty, so the method for every maturity can be chosen.
pub proof fn lemma_checked_points_usable<R>(
    asof: Date,
    daycount: DayCount,
    dtm: Vec<i32>,
    zero_rates: Vec<R>,
)
    requires
        points_outcome(asof, daycount, dtm, zero_rates) is Ok,
    ensures
        strictly_increasing(dtm@),
        dtm.len() >= 1,
        dtm.len() == zero_rates.len(),
{
}

/// Sorted vertices without duplicates, at least two of them, give two vertices to
/// interpolate on, for every point.
pub proof fn lemma_sorted_vertices_interpolate(x: Seq<i32>, x_out: i32)
    requires
        strictly_increasing(x),
        x.len() >= 2,
    ensures
        interpolation_points_defined(x, x_out),
{
    assert(x[0] < x[1]);
    assert(x[x.len() - 2] < x[x.len() - 1]);
}

/// The step function has a value for every point when each vertex has one.
pub proof fn lemma_sorted_vertices_step<T>(x: Seq<i32>, y: Seq<T>, x_out: i32)
    requires
        x.len() >= 1,
        y.len() == x.len(),
    ensures
        step_function_defined(x, y, x_out),
{
}

/// On an interpolated curve of at least two vertices, a maturity before the first vertex
/// takes the method before it, one after the last vertex (and not before the first) the
/// method after it, and every
/// maturity from the first vertex to the last one (both included) the inner method. Only a
/// curve of exactly one vertex is flat.
pub proof fn lemma_zero_rate_method_by_position(
    before_first: InterpolationMethod,
    inner: InterpolationMethod,
    after_last: InterpolationMethod,
    dtm: Seq<i32>,
    dtm_out: i32,
)
    requires
        dtm.len() >= 1,
    ensures
        (zero_rate_method_of(
            CurveMethod::Interpolation { before_first, inner, after_last },
            dtm,
            dtm_out,
        ) is Flat) <==> dtm.len() == 1,
        dtm.len() >= 2 && dtm_out < dtm[0] ==> zero_rate_method_of(
            CurveMethod::Interpolation { before_first, inner, after_last },
            dtm,
            dtm_out,
        ) == ZeroRateMethod::Interpolated(before_first),
        dtm.len() >= 2 && dtm_out >= dtm[0] && dtm_out > dtm[dtm.len() - 1] ==> zero_rate_method_of(
            CurveMethod::Interpolation { before_first, inner, after_last },
            dtm,
            dtm_out,
        ) == ZeroRateMethod::Interpolated(after_last),
        dtm.len() >= 2 && dtm[0] <= dtm_out <= dtm[dtm.len() - 1] ==> zero_rate_method_of(
            CurveMethod::Interpolation { before_first, inner, after_last },
            dtm,
            dtm_out,
        ) == ZeroRateMethod::Interpolated(inner),
{
}

/// A parametric curve gives every maturity by its own model, whatever its vertices.
pub proof fn lemma_zero_rate_method_parametric(p: ParametricMethod, dtm: Seq<i32>, dtm_out: i32)
    ensures
        zero_rate_method_of(CurveMethod::Parametric(p), dtm, dtm_out) == ZeroRateMethod::Parametric(
            p,
        ),
{
}

/// A curve method needs a spline on rates exactly when it interpolates and one of its
/// three methods is a cubic spline on rates.
pub proof fn lemma_spline_needed_when_any_part_is_spline(
    before_first: InterpolationMethod,
    inner: InterpolationMethod,
    after_last: InterpolationMethod,
    p: ParametricMethod,
)
    ensures
        before_first == InterpolationMethod::CubicSplineOnRates ==> spline_needed(
            CurveMethod::Interpolation { before_first, inner, after_last },
        ),
        inner == InterpolationMethod::CubicSplineOnRates ==> spline_needed(
            CurveMethod::Interpolation { before_first, inner, after_last },
        ),
        after_last == InterpolationMethod::CubicSplineOnRates ==> spline_needed(
            CurveMethod::Interpolation { before_first, inner, after_last },
        ),
        before_first != InterpolationMethod::CubicSplineOnRates && inner
            != InterpolationMethod::CubicSplineOnRates && after_last
            != InterpolationMethod::CubicSplineOnRates ==> !spline_needed(
            CurveMethod::Interpolation { before_first, inner, after_last },
        ),
        !spline_needed(CurveMethod::Parametric(p)),
{
}

/// Every maturity whose zero rate a cubic spline on rates gives lies on a curve whose
/// method needs that spline, so it is fitted when the curve is built.
pub proof fn lemma_spline_method_has_spline(method: CurveMethod, dtm: Seq<i32>, dtm_out: i32)
    requires
        method is Interpolation ==> dtm.len() >= 1,
        zero_rate_method_of(method, dtm, dtm_out) == ZeroRateMethod::Interpolated(
            InterpolationMethod::CubicSplineOnRates,
        ),
    ensures
        spline_needed(method),
{
}

/// A curve on a business-day count is refused exactly when its date is not a business day
/// of the count's calendar, holidays as well as weekends; a curve on a calendar-day count
/// is never refused for its date.
pub proof fn lemma_curve_date_refused_on_non_business_days<R>(
    asof: Date,
    daycount: DayCount,
    dtm: Vec<i32>,
    zero_rates: Vec<R>,
)
    ensures
        daycount matches DayCount::BDays252(cal) ==> (points_outcome(
            asof,
            daycount,
            dtm,
            zero_rates,
        ) == Err::<(Vec<i32>, Vec<R>), Error<R>>(Error::InvalidCurveDate { asof })
            <==> !calendar_is_bday(cal, asof@)),
        !(daycount is BDays252) ==> !(points_outcome(asof, daycount, dtm, zero_rates) is Err
            && points_outcome(asof, daycount, dtm, zero_rates)->Err_0 is InvalidCurveDate),
        points_outcome(asof, daycount, dtm, zero_rates) is Ok ==> (daycount matches DayCount::BDays252(
            cal,
        ) ==> calendar_is_bday(cal, asof@)),
{
}

} // verus!
