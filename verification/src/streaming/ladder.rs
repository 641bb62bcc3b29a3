//! The capture resolution ladder.
//!
//! Resolution moves in discrete steps, never continuously: the height steps
//! down 90 pixels at a time and any step that is not at least 15% smaller in
//! area is dropped, because the end-to-end system cannot stabilize when
//! consecutive steps are too close together.
//!
//! The ladder is driven by the bitrate control loop: a link that has pinned
//! the encoder at its floor cannot carry the current frame size, and
//! sustained headroom at the ceiling means it could carry more.
//!
//! Times are milliseconds on a monotonic clock chosen by the caller.

use vstd::prelude::*;

verus! {

/// The step between snapped heights.
pub const HEIGHT_STEP: i32 = 90;

/// The area reduction required between neighbouring steps, in percent.
pub const MIN_AREA_REDUCTION_PERCENT: i64 = 15;

/// How long a size must be held before it may change again, in ms.
pub const MIN_SIZE_CHANGE_PERIOD_MS: u64 = 3_000;

/// How long headroom must last before stepping *up*, in ms: deliberately far
/// more cautious than stepping down.
pub const PROVING_PERIOD_MS: u64 = 30_000;

/// `x` rounded down to an even number (for `x >= 0`).
pub open spec fn even(x: int) -> int {
    x - x % 2
}

/// The area of a size.
pub open spec fn spec_area(size: (i32, i32)) -> int {
    size.0 * size.1
}

/// `a / b` rounded towards zero, as machine division does.
pub open spec fn div_toward_zero(a: int, b: int) -> int {
    if a >= 0 {
        a / b
    } else {
        -((-a) / b)
    }
}

/// `x` clamped into the `i64` range.
pub open spec fn saturate_i64(x: int) -> int {
    if x > i64::MAX {
        i64::MAX as int
    } else if x < i64::MIN {
        i64::MIN as int
    } else {
        x
    }
}

/// Whether `candidate` cuts at least `MIN_AREA_REDUCTION_PERCENT` off
/// `current` (the 85% limit saturates at the `i64` range).
pub open spec fn spec_meaningfully_smaller(candidate: (i32, i32), current: (i32, i32)) -> bool {
    spec_area(candidate) <= div_toward_zero(saturate_i64(spec_area(current) * 85), 100)
}

pub fn area(size: (i32, i32)) -> (r: i64)
    ensures
        r == spec_area(size),
{
    proof {
        lemma_area_bounds(size);
    }
    (size.0 as i64) * (size.1 as i64)
}

proof fn lemma_area_bounds(size: (i32, i32))
    ensures
        -0x3fff_ffff_8000_0000 <= spec_area(size) <= 0x4000_0000_0000_0000,
{
    let a = size.0 as int;
    let b = size.1 as int;
    assert(-0x3fff_ffff_8000_0000 <= a * b <= 0x4000_0000_0000_0000) by (nonlinear_arith)
        requires
            -0x8000_0000 <= a < 0x8000_0000,
            -0x8000_0000 <= b < 0x8000_0000,
    ;
}

/// Whether `candidate` cuts at least `MIN_AREA_REDUCTION_PERCENT` off `current`.
pub fn is_meaningfully_smaller(candidate: (i32, i32), current: (i32, i32)) -> (r: bool)
    ensures
        r == spec_meaningfully_smaller(candidate, current),
{
    let current_area = area(current) as i128;
    let factor = (100 - MIN_AREA_REDUCTION_PERCENT) as i128;
    let product = current_area * factor;
    let scaled: i128 = if product > i64::MAX as i128 {
        i64::MAX as i128
    } else if product < i64::MIN as i128 {
        i64::MIN as i128
    } else {
        product
    };
    let limit: i128 = if scaled >= 0 {
        scaled / 100
    } else {
        -((-scaled) / 100)
    };
    (area(candidate) as i128) <= limit
}

/// The ladder of `source` between `min` and `max`, smallest first: the
/// clamped source size, then every 90-pixel step down in height (keeping the
/// aspect ratio) that is at least 15% smaller in area than the last one kept,
/// down to the minimum height.
pub open spec fn spec_snapped_sizes(source: (i32, i32), min: (i32, i32), max: (i32, i32)) -> Seq<
    (i32, i32),
> {
    let width = spec_clamped_dimension(source.0, min.0, max.0);
    let height = spec_clamped_dimension(source.1, min.1, max.1);
    spec_steps(width, height, if min.1 < height { min.1 as int } else { height as int }, height as int, seq![
        (even(width as int) as i32, even(height as int) as i32),
    ]).reverse()
}

/// `value` clamped into `[min(lo, hi), hi]`, and at least 2.
pub open spec fn spec_clamped_dimension(value: i32, lo: i32, hi: i32) -> i32 {
    let low = if lo < hi {
        lo
    } else {
        hi
    };
    let clamped = if value < low {
        low
    } else if value > hi {
        hi
    } else {
        value
    };
    if clamped < 2 {
        2
    } else {
        clamped
    }
}

/// The steps below `height` (exclusive), appended to `sizes`, largest first.
pub open spec fn spec_steps(width: i32, height: i32, floor: int, height_so_far: int, sizes: Seq<
    (i32, i32),
>) -> Seq<(i32, i32)>
    decreases height_so_far,
{
    let next = height_so_far - HEIGHT_STEP;
    if height_so_far < 2 || height <= 0 || next < floor || next < 2 || sizes.len() == 0 {
        sizes
    } else {
        let scaled_width = next * width / (height as int);
        let candidate = (
            (if even(scaled_width) < 2 {
                2
            } else {
                even(scaled_width)
            }) as i32,
            even(next) as i32,
        );
        if spec_meaningfully_smaller(candidate, sizes.last()) {
            spec_steps(width, height, floor, next, sizes.push(candidate))
        } else {
            spec_steps(width, height, floor, next, sizes)
        }
    }
}

fn clamped_dimension(value: i32, lo: i32, hi: i32) -> (r: i32)
    ensures
        r == spec_clamped_dimension(value, lo, hi),
{
    let low = if lo < hi {
        lo
    } else {
        hi
    };
    let clamped = if value < low {
        low
    } else if value > hi {
        hi
    } else {
        value
    };
    if clamped < 2 {
        2
    } else {
        clamped
    }
}

/// `x` rounded down to an even number.
fn round_even(x: i32) -> (r: i32)
    requires
        x >= 0,
    ensures
        r == even(x as int),
{
    let r = x & !1i32;
    assert(x & !1i32 == x - x % 2) by (bit_vector)
        requires
            x >= 0,
    ;
    r
}

/// The discrete sizes this source may be captured at, smallest first.
pub fn snapped_sizes(source: (i32, i32), min: (i32, i32), max: (i32, i32)) -> (r: Vec<(i32, i32)>)
    ensures
        r@ == spec_snapped_sizes(source, min, max),
{
    let width = clamped_dimension(source.0, min.0, max.0);
    let height = clamped_dimension(source.1, min.1, max.1);
    let floor = if min.1 < height {
        min.1
    } else {
        height
    };
    let mut sizes = vec![(round_even(width), round_even(height))];
    let ghost first = sizes@;
    assert(first =~= seq![(even(width as int) as i32, even(height as int) as i32)]);

    let mut next_height = height;
    while next_height >= 2
        invariant
            width >= 2,
            height >= 2,
            next_height <= height,
            sizes@.len() >= 1,
            spec_steps(width, height, floor as int, height as int, first) == spec_steps(
                width,
                height,
                floor as int,
                next_height as int,
                sizes@,
            ),
        ensures
            sizes@ == spec_steps(width, height, floor as int, height as int, first),
        decreases next_height,
    {
        let ghost current = next_height as int;
        next_height = next_height - HEIGHT_STEP;
        if next_height < floor || next_height < 2 {
            assert(spec_steps(width, height, floor as int, current, sizes@) == sizes@);
            break;
        }
        assert(0 <= next_height * width <= 0x4000_0000_0000_0000) by (nonlinear_arith)
            requires
                0 < next_height < 0x8000_0000,
                0 < width < 0x8000_0000,
        ;
        let product = (next_height as i64) * (width as i64);
        proof {
            assert(0 <= product <= next_height * width);
            assert((product as int) / (height as int) <= width as int) by (nonlinear_arith)
                requires
                    product == next_height * width,
                    0 < next_height < height,
                    width >= 2,
            ;
        }
        let scaled_width = (product / (height as i64)) as i32;
        let even_width = round_even(scaled_width);
        let candidate = (if even_width < 2 {
            2
        } else {
            even_width
        }, round_even(next_height));
        let smallest = sizes[sizes.len() - 1];
        if !is_meaningfully_smaller(candidate, smallest) {
            continue;
        }
        sizes.push(candidate);
    }
    let mut result = Vec::with_capacity(sizes.len());
    let mut i = sizes.len();
    while i > 0
        invariant
            i <= sizes@.len(),
            result@.len() == sizes@.len() - i,
            forall|j: int| 0 <= j < result@.len() ==> #[trigger] result@[j] == sizes@[sizes@.len() - 1 - j],
        decreases i,
    {
        i -= 1;
        result.push(sizes[i]);
    }
    assert(result@ =~= sizes@.reverse());
    result
}

/// How far the area of `size` is from `target`.
pub open spec fn spec_distance(size: (i32, i32), target: int) -> int {
    let d = spec_area(size) - target;
    if d < 0 {
        -d
    } else {
        d
    }
}

/// Whether `index` is the first of the rungs whose area is closest to
/// `target` (0 for an empty ladder).
pub open spec fn is_nearest(sizes: Seq<(i32, i32)>, target: int, index: int) -> bool {
    &&& sizes.len() == 0 ==> index == 0
    &&& sizes.len() > 0 ==> 0 <= index < sizes.len()
    &&& forall|j: int|
        0 <= j < sizes.len() ==> #[trigger] spec_distance(sizes[j], target) >= spec_distance(
            sizes[index],
            target,
        )
    &&& forall|j: int|
        0 <= j < index ==> #[trigger] spec_distance(sizes[j], target) > spec_distance(
            sizes[index],
            target,
        )
}

/// Index of the rung whose area is closest to `target`.
fn nearest_index(sizes: &Vec<(i32, i32)>, target: i64) -> (r: usize)
    requires
        -0x3fff_ffff_8000_0000 <= target <= 0x4000_0000_0000_0000,
    ensures
        is_nearest(sizes@, target as int, r as int),
{
    let mut best: usize = 0;
    let mut best_delta = i64::MAX;
    let mut index: usize = 0;
    while index < sizes.len()
        invariant
            index <= sizes@.len(),
            -0x3fff_ffff_8000_0000 <= target <= 0x4000_0000_0000_0000,
            index == 0 ==> best == 0 && best_delta == i64::MAX,
            index > 0 ==> best < index && best_delta == spec_distance(
                sizes@[best as int],
                target as int,
            ),
            forall|j: int|
                0 <= j < index ==> #[trigger] spec_distance(sizes@[j], target as int) >= best_delta,
            forall|j: int|
                0 <= j < best ==> #[trigger] spec_distance(sizes@[j], target as int) > best_delta,
        decreases sizes@.len() - index,
    {
        proof {
            lemma_area_bounds(sizes@[index as int]);
        }
        let d = area(sizes[index]) - target;
        let delta = if d < 0 {
            -d
        } else {
            d
        };
        if delta < best_delta {
            best_delta = delta;
            best = index;
        }
        index += 1;
    }
    best
}

/// Tracks the current rung and decides when to move, damped so the picture
/// does not oscillate.
pub struct ResolutionLadder {
    sizes: Vec<(i32, i32)>,
    index: usize,
    changed_at_ms: u64,
    headroom_since_ms: Option<u64>,
}

/// The ladder's state: (rungs, current rung, when the size last changed,
/// since when the link has had headroom).
pub type LadderState = (Seq<(i32, i32)>, int, u64, Option<u64>);

/// What one observation does: the new state and the size moved to, if any.
pub open spec fn spec_observe(state: LadderState, at_floor: bool, at_ceiling: bool, now_ms: u64) -> (
    LadderState,
    Option<(i32, i32)>,
) {
    let (sizes, index, changed_at, headroom) = state;
    let headroom = if at_ceiling {
        match headroom {
            Some(since) => Some(since),
            None => Some(now_ms),
        }
    } else {
        None
    };
    if now_ms < changed_at + MIN_SIZE_CHANGE_PERIOD_MS {
        ((sizes, index, changed_at, headroom), None)
    } else if at_floor && index > 0 {
        ((sizes, index - 1, now_ms, None), Some(sizes[index - 1]))
    } else if (headroom matches Some(since) && now_ms >= since + PROVING_PERIOD_MS) && index + 1
        < sizes.len() {
        ((sizes, index + 1, now_ms, None), Some(sizes[index + 1]))
    } else {
        ((sizes, index, changed_at, headroom), None)
    }
}

impl ResolutionLadder {
    #[verifier::type_invariant]
    spec fn well_formed(self) -> bool {
        &&& self.sizes@.len() == 0 ==> self.index == 0
        &&& self.sizes@.len() > 0 ==> self.index < self.sizes@.len()
    }

    pub closed spec fn state(self) -> LadderState {
        (self.sizes@, self.index as int, self.changed_at_ms, self.headroom_since_ms)
    }

    /// `current` is where the pipeline starts; the nearest rung is taken.
    pub fn new(sizes: Vec<(i32, i32)>, current: (i32, i32), now_ms: u64) -> (r: Self)
        ensures
            r.state().0 == sizes@,
            r.state().2 == now_ms,
            r.state().3 is None,
            is_nearest(sizes@, spec_area(current), r.state().1),
    {
        proof {
            lemma_area_bounds(current);
        }
        let index = nearest_index(&sizes, area(current));
        Self { sizes, index, changed_at_ms: now_ms, headroom_since_ms: None }
    }

    /// The current rung, or `None` for an empty ladder.
    pub fn current(&self) -> (r: Option<(i32, i32)>)
        ensures
            self.state().0.len() == 0 ==> r is None,
            self.state().0.len() > 0 ==> r == Some(self.state().0[self.state().1]),
    {
        proof {
            use_type_invariant(self);
        }
        if self.index < self.sizes.len() {
            Some(self.sizes[self.index])
        } else {
            None
        }
    }

    /// Reports where the bitrate loop has ended up. Returns a new size when the
    /// ladder decides to move. `at_floor` means the link could not carry what
    /// we asked for; `at_ceiling` means it carried everything we asked for.
    pub fn observe(&mut self, at_floor: bool, at_ceiling: bool, now_ms: u64) -> (r: Option<(i32, i32)>)
        ensures
            (final(self).state(), r) == spec_observe(old(self).state(), at_floor, at_ceiling, now_ms),
    {
        proof {
            use_type_invariant(&*self);
        }
        if at_ceiling {
            if self.headroom_since_ms.is_none() {
                self.headroom_since_ms = Some(now_ms);
            }
        } else {
            self.headroom_since_ms = None;
        }
        if now_ms.saturating_sub(self.changed_at_ms) < MIN_SIZE_CHANGE_PERIOD_MS {
            return None;
        }
        if at_floor && self.index > 0 {
            self.index = self.index - 1;
            self.changed_at_ms = now_ms;
            self.headroom_since_ms = None;
            return self.current();
        }
        proof {
            use_type_invariant(&*self);
        }
        let proven = match self.headroom_since_ms {
            Some(since) => now_ms.saturating_sub(since) >= PROVING_PERIOD_MS,
            None => false,
        };
        if proven && self.sizes.len() > 0 && self.index < self.sizes.len() - 1 {
            self.index = self.index + 1;
            self.changed_at_ms = now_ms;
            self.headroom_since_ms = None;
            return self.current();
        }
        None
    }
}


/// Whether each rung of `sizes` is meaningfully smaller than the one before.
pub open spec fn descending_steps(sizes: Seq<(i32, i32)>) -> bool {
    forall|i: int|
        0 <= i < sizes.len() - 1 ==> #[trigger] spec_meaningfully_smaller(sizes[i + 1], sizes[i])
}

/// Whether every rung of `sizes` is at least 2 by 2.
pub open spec fn positive_sizes(sizes: Seq<(i32, i32)>) -> bool {
    forall|i: int| 0 <= i < sizes.len() ==> #[trigger] sizes[i].0 >= 2 && sizes[i].1 >= 2
}

proof fn lemma_steps_keep_order(
    width: i32,
    height: i32,
    floor: int,
    height_so_far: int,
    sizes: Seq<(i32, i32)>,
)
    requires
        width >= 2,
        height >= 2,
        height_so_far <= height,
        descending_steps(sizes),
        positive_sizes(sizes),
    ensures
        descending_steps(spec_steps(width, height, floor, height_so_far, sizes)),
        positive_sizes(spec_steps(width, height, floor, height_so_far, sizes)),
        spec_steps(width, height, floor, height_so_far, sizes).len() >= sizes.len(),
        forall|i: int|
            0 <= i < sizes.len() ==> #[trigger] spec_steps(
                width,
                height,
                floor,
                height_so_far,
                sizes,
            )[i] == sizes[i],
    decreases height_so_far,
{
    let next = height_so_far - HEIGHT_STEP;
    if height_so_far < 2 || height <= 0 || next < floor || next < 2 || sizes.len() == 0 {
    } else {
        let scaled_width = next * width / (height as int);
        assert(0 <= scaled_width <= width) by (nonlinear_arith)
            requires
                scaled_width == next * width / (height as int),
                0 < next < height,
                width >= 2,
        ;
        let candidate = (
            (if even(scaled_width) < 2 {
                2
            } else {
                even(scaled_width)
            }) as i32,
            even(next) as i32,
        );
        if spec_meaningfully_smaller(candidate, sizes.last()) {
            let pushed = sizes.push(candidate);
            assert(descending_steps(pushed)) by {
                assert forall|i: int| 0 <= i < pushed.len() - 1 implies #[trigger]
                    spec_meaningfully_smaller(pushed[i + 1], pushed[i]) by {
                    if i < sizes.len() - 1 {
                        assert(pushed[i + 1] == sizes[i + 1]);
                    }
                }
            }
            assert(candidate.0 >= 2 && candidate.1 >= 2);
            assert(positive_sizes(pushed)) by {
                assert forall|i: int| 0 <= i < pushed.len() implies #[trigger] pushed[i].0 >= 2
                    && pushed[i].1 >= 2 by {
                    if i < sizes.len() {
                        assert(pushed[i] == sizes[i]);
                    }
                }
            }
            lemma_steps_keep_order(width, height, floor, next, pushed);
        } else {
            lemma_steps_keep_order(width, height, floor, next, sizes);
        }
    }
}

/// A rung that is meaningfully smaller than a positive size has a strictly
/// smaller area.
pub proof fn lemma_meaningfully_smaller_is_smaller(candidate: (i32, i32), current: (i32, i32))
    requires
        current.0 >= 2,
        current.1 >= 2,
        spec_meaningfully_smaller(candidate, current),
    ensures
        spec_area(candidate) < spec_area(current),
{
    lemma_area_bounds(current);
    let a = spec_area(current);
    assert(a >= 4) by (nonlinear_arith)
        requires
            a == current.0 * current.1,
            current.0 >= 2,
            current.1 >= 2,
    ;
}

/// The ladder runs from smallest to largest: neighbouring rungs differ by at
/// least 15% of area, each rung is strictly larger than the one before, every
/// rung is at least 2 by 2, and the top rung is the source clamped between
/// `min` and `max` (rounded down to even dimensions), so a source smaller
/// than the maximum is never scaled up.
pub proof fn lemma_ladder_shape(source: (i32, i32), min: (i32, i32), max: (i32, i32))
    ensures
        ({
            let sizes = spec_snapped_sizes(source, min, max);
            let width = spec_clamped_dimension(source.0, min.0, max.0);
            let height = spec_clamped_dimension(source.1, min.1, max.1);
            &&& sizes.len() >= 1
            &&& sizes.last() == (even(width as int) as i32, even(height as int) as i32)
            &&& positive_sizes(sizes)
            &&& forall|i: int|
                0 <= i < sizes.len() - 1 ==> #[trigger] spec_meaningfully_smaller(
                    sizes[i],
                    sizes[i + 1],
                )
            &&& forall|i: int|
                0 <= i < sizes.len() - 1 ==> #[trigger] spec_area(sizes[i]) < spec_area(
                    sizes[i + 1],
                )
        }),
{
    let width = spec_clamped_dimension(source.0, min.0, max.0);
    let height = spec_clamped_dimension(source.1, min.1, max.1);
    let floor = if min.1 < height {
        min.1 as int
    } else {
        height as int
    };
    let first = seq![(even(width as int) as i32, even(height as int) as i32)];
    assert(even(width as int) >= 2 && even(height as int) >= 2);
    lemma_steps_keep_order(width, height, floor, height as int, first);
    let steps = spec_steps(width, height, floor, height as int, first);
    let sizes = spec_snapped_sizes(source, min, max);
    assert(sizes == steps.reverse());
    assert(steps[0] == first[0]);
    assert forall|i: int| 0 <= i < sizes.len() implies #[trigger] sizes[i].0 >= 2 && sizes[i].1
        >= 2 by {
        assert(sizes[i] == steps[steps.len() - 1 - i]);
    }
    assert forall|i: int| 0 <= i < sizes.len() - 1 implies #[trigger] spec_meaningfully_smaller(
        sizes[i],
        sizes[i + 1],
    ) by {
        let k = steps.len() - 2 - i;
        assert(sizes[i] == steps[k + 1]);
        assert(sizes[i + 1] == steps[k]);
        assert(spec_meaningfully_smaller(steps[k + 1], steps[k]));
    }
    assert forall|i: int| 0 <= i < sizes.len() - 1 implies #[trigger] spec_area(sizes[i])
        < spec_area(sizes[i + 1]) by {
        assert(spec_meaningfully_smaller(sizes[i], sizes[i + 1]));
        assert(sizes[i + 1].0 >= 2 && sizes[i + 1].1 >= 2);
        lemma_meaningfully_smaller_is_smaller(sizes[i], sizes[i + 1]);
    }
}

/// The ladder is damped: it moves only when the size has been held for the
/// minimum period; it steps down only when the link is at its floor and
/// there is a rung below; it steps up only after the link has had headroom
/// without a gap for the whole proving period and there is a rung above; it
/// moves at most one rung at a time, and what it returns is the new rung.
pub proof fn lemma_observe_is_damped(
    state: LadderState,
    at_floor: bool,
    at_ceiling: bool,
    now_ms: u64,
)
    requires
        state.0.len() == 0 ==> state.1 == 0,
        state.0.len() > 0 ==> 0 <= state.1 < state.0.len(),
    ensures
        ({
            let (next, moved) = spec_observe(state, at_floor, at_ceiling, now_ms);
            &&& next.0 == state.0
            &&& next.0.len() == 0 ==> next.1 == 0
            &&& next.0.len() > 0 ==> 0 <= next.1 < next.0.len()
            &&& moved is None <==> next.1 == state.1
            &&& moved is None ==> next.2 == state.2
            &&& moved is Some ==> {
                &&& now_ms >= state.2 + MIN_SIZE_CHANGE_PERIOD_MS
                &&& next.2 == now_ms
                &&& next.3 is None
                &&& moved == Some(next.0[next.1])
                &&& next.1 == state.1 - 1 || next.1 == state.1 + 1
            }
            &&& next.1 < state.1 ==> at_floor
            &&& next.1 > state.1 ==> at_ceiling
            &&& next.1 > state.1 ==> (state.3 matches Some(since) && now_ms >= since
                + PROVING_PERIOD_MS)
            &&& !at_ceiling ==> next.3 is None
        }),
{
}

/// At the ends of the ladder it holds still: at the bottom rung a link at its
/// floor gets no change, and at the top rung neither does headroom.
pub proof fn lemma_observe_stops_at_both_ends(
    state: LadderState,
    at_floor: bool,
    at_ceiling: bool,
    now_ms: u64,
)
    requires
        state.0.len() > 0,
        0 <= state.1 < state.0.len(),
    ensures
        state.1 == 0 && !at_ceiling ==> spec_observe(state, at_floor, at_ceiling, now_ms).1 is None,
        state.1 == state.0.len() - 1 && !at_floor ==> spec_observe(
            state,
            at_floor,
            at_ceiling,
            now_ms,
        ).1 is None,
{
}

/// One observation: whether the link is at its floor, whether it is at its
/// ceiling, and when (in milliseconds).
pub type Observation = (bool, bool, u64);

/// The ladder's state after a run of observations, one `observe` each.
pub open spec fn state_after(state: LadderState, run: Seq<Observation>) -> LadderState
    decreases run.len(),
{
    if run.len() == 0 {
        state
    } else {
        let o = run.last();
        spec_observe(state_after(state, run.drop_last()), o.0, o.1, o.2).0
    }
}

/// Whether the rung index of `state` is on the ladder.
pub open spec fn on_ladder(state: LadderState) -> bool {
    &&& state.0.len() == 0 ==> state.1 == 0
    &&& state.0.len() > 0 ==> 0 <= state.1 < state.0.len()
}

/// Whether the link was at its ceiling at every observation from `from`
/// up to (not including) `to`.
pub open spec fn ceiling_throughout(run: Seq<Observation>, from: int, to: int) -> bool {
    forall|m: int| from <= m < to ==> (#[trigger] run[m]).1
}

/// What observation `k` of a run does, judged from the state before it:
/// the ladder stays on its rungs; it answers nothing and keeps its rung, or
/// moves one rung and answers the new rung; a move comes at least the
/// minimum period after the previous change; a step down needs the link at
/// its floor; a step up needs the link at its ceiling at every observation
/// of a stretch reaching this one and lasting at least the proving period.
pub open spec fn observation_ok(state: LadderState, run: Seq<Observation>, k: int) -> bool {
    let before = state_after(state, run.take(k));
    let o = run[k];
    let (after, moved) = spec_observe(before, o.0, o.1, o.2);
    &&& after == state_after(state, run.take(k + 1))
    &&& on_ladder(after)
    &&& after.0 == state.0
    &&& moved is None ==> after.1 == before.1
    &&& moved is Some ==> {
        &&& o.2 >= before.2 + MIN_SIZE_CHANGE_PERIOD_MS
        &&& after.2 == o.2
        &&& moved == Some(after.0[after.1])
    }
    &&& after.1 == before.1 - 1 ==> o.0
    &&& after.1 == before.1 + 1 ==> exists|j: int|
        0 <= j <= k && o.2 >= run[j].2 + PROVING_PERIOD_MS && ceiling_throughout(run, j, k + 1)
    &&& after.1 == before.1 || after.1 == before.1 - 1 || after.1 == before.1 + 1
}

proof fn lemma_run_invariant(state: LadderState, run: Seq<Observation>, k: int)
    requires
        on_ladder(state),
        state.3 is None,
        0 <= k <= run.len(),
    ensures
        ({
            let s = state_after(state, run.take(k));
            &&& on_ladder(s)
            &&& s.0 == state.0
            &&& s.3 matches Some(t) ==> exists|j: int|
                0 <= j < k && t == run[j].2 && ceiling_throughout(run, j, k)
        }),
    decreases k,
{
    if k == 0 {
        assert(run.take(0) =~= Seq::<Observation>::empty());
    } else {
        lemma_run_invariant(state, run, k - 1);
        assert(run.take(k).drop_last() =~= run.take(k - 1));
        let prev = state_after(state, run.take(k - 1));
        let o = run[k - 1];
        assert(run.take(k).last() == o);
        let s = state_after(state, run.take(k));
        assert(s == spec_observe(prev, o.0, o.1, o.2).0);
        lemma_observe_is_damped(prev, o.0, o.1, o.2);
        if s.3 is Some {
            let t = s.3->0;
            assert(o.1);
            if prev.3 is Some && prev.3->0 == t {
                let j = choose|j: int|
                    0 <= j < k - 1 && prev.3->0 == run[j].2 && ceiling_throughout(run, j, k - 1);
                assert(ceiling_throughout(run, j, k));
            } else {
                assert(t == o.2);
                assert(ceiling_throughout(run, k - 1, k));
            }
        }
    }
}

/// The ladder over a whole run of observations, as successive `observe`
/// calls on one ladder make it (starting, as a new ladder does, without
/// headroom): every observation meets `observation_ok`. So the ladder never
/// leaves its rungs, moves at most one rung per observation, changes size no
/// sooner than the minimum period after the last change, steps down only at
/// the link's floor, and steps up only after a stretch of headroom without a
/// gap lasting the proving period.
pub proof fn lemma_observe_run(state: LadderState, run: Seq<Observation>)
    requires
        on_ladder(state),
        state.3 is None,
    ensures
        forall|k: int| 0 <= k < run.len() ==> #[trigger] observation_ok(state, run, k),
{
    assert forall|k: int| 0 <= k < run.len() implies #[trigger] observation_ok(state, run, k) by {
        lemma_run_invariant(state, run, k);
        let before = state_after(state, run.take(k));
        let o = run[k];
        assert(run.take(k + 1).drop_last() =~= run.take(k));
        assert(run.take(k + 1).last() == o);
        lemma_observe_is_damped(before, o.0, o.1, o.2);
        let (after, moved) = spec_observe(before, o.0, o.1, o.2);
        if after.1 == before.1 + 1 {
            let since = before.3->0;
            let j = choose|j: int|
                0 <= j < k && since == run[j].2 && ceiling_throughout(run, j, k);
            assert(ceiling_throughout(run, j, k + 1));
        }
    }
}

} // verus!
