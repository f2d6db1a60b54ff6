//! Brightness levels: the percentage scale of the interface and the native scale of a monitor.

use vstd::prelude::*;

verus! {

/// The lowest percentage that can be set. It is above zero, so that a screen never goes completely
/// black and its interface stays visible.
pub const MIN_BRIGHTNESS_PERCENT: u32 = 10;

/// The highest percentage.
pub const MAX_BRIGHTNESS_PERCENT: u32 = 100;

// ---------------------------------------------------------------------------
// The scales
// ---------------------------------------------------------------------------

/// The percentage in the safe range that is nearest to `v`.
pub open spec fn clamped(v: int) -> int {
    if v < MIN_BRIGHTNESS_PERCENT {
        MIN_BRIGHTNESS_PERCENT as int
    } else if v > MAX_BRIGHTNESS_PERCENT {
        MAX_BRIGHTNESS_PERCENT as int
    } else {
        v
    }
}

/// A level, up to one hundred percent.
pub open spec fn capped(v: int) -> int {
    if v < MAX_BRIGHTNESS_PERCENT {
        v
    } else {
        MAX_BRIGHTNESS_PERCENT as int
    }
}

/// The upper end of a native range. A monitor that reports zero is taken to count to one hundred.
pub open spec fn native_max(max: int) -> int {
    if max == 0 {
        100
    } else {
        max
    }
}

/// The number of steps of a native range.
pub open spec fn native_span(min: int, max: int) -> int {
    native_max(max) - min
}

/// The native value that is set for a percentage: the safe percentage of the way from the lower to
/// the upper end, rounded to the nearest step. In a range without steps it is the percentage.
pub open spec fn native_of(percent: int, min: int, max: int) -> int {
    if native_span(min, max) <= 0 {
        clamped(percent)
    } else {
        min + (clamped(percent) * native_span(min, max) + 50) / 100
    }
}

/// A native value moved into its range.
pub open spec fn into_range(current: int, min: int, max: int) -> int {
    if current < min {
        min
    } else if current > native_max(max) {
        native_max(max)
    } else {
        current
    }
}

/// The percentage that a native value stands for, rounded to the nearest one. In a range without
/// steps it is the native value, up to one hundred.
pub open spec fn percent_of(current: int, min: int, max: int) -> int {
    let span = native_span(min, max);
    if span <= 0 {
        if current < 100 {
            current
        } else {
            100
        }
    } else {
        ((into_range(current, min, max) - min) * 100 + span / 2) / span
    }
}

/// Clamps a percentage to the safe range.
pub fn clamp_brightness_percent(v: u32) -> (r: u32)
    ensures
        r == clamped(v as int),
{
    if v < MIN_BRIGHTNESS_PERCENT {
        MIN_BRIGHTNESS_PERCENT
    } else if v > MAX_BRIGHTNESS_PERCENT {
        MAX_BRIGHTNESS_PERCENT
    } else {
        v
    }
}

/// Clamps a requested brightness to the safe range.
pub fn clamp_brightness(v: u32) -> (r: u32)
    ensures
        r == clamped(v as int),
{
    clamp_brightness_percent(v)
}

/// Moves a level that was read down to one hundred percent. A low level is not raised.
pub fn cap_percent(v: u32) -> (r: u32)
    ensures
        r == capped(v as int),
{
    if v < MAX_BRIGHTNESS_PERCENT {
        v
    } else {
        MAX_BRIGHTNESS_PERCENT
    }
}

/// The upper end of a native range.
pub fn normalize_native_max(max_native: u32) -> (r: u32)
    ensures
        r == native_max(max_native as int),
{
    if max_native == 0 {
        100
    } else {
        max_native
    }
}

/// Converts a percentage to the native range of a monitor. Used when setting brightness.
pub fn percent_to_native(percent: u32, min_native: u32, max_native: u32) -> (r: u32)
    ensures
        r == native_of(percent as int, min_native as int, max_native as int),
{
    let max_n = normalize_native_max(max_native);
    let p = clamp_brightness_percent(percent);
    if max_n <= min_native {
        return p;
    }
    let span = max_n - min_native;
    assert(p as u64 * span as u64 <= 100 * 0xffff_ffff) by (nonlinear_arith)
        requires
            p <= 100,
            span <= 0xffff_ffff,
    ;
    assert((p * span + 50) / 100 <= span) by (nonlinear_arith)
        requires
            0 <= p <= 100,
            0 <= span,
    ;
    min_native + ((p as u64 * span as u64 + 50) / 100) as u32
}

/// Converts a native value of a monitor to a percentage. Used when reading brightness. The result
/// is not raised to the lowest percentage that can be set, so that a level that was chosen on the
/// monitor itself is shown as it is.
pub fn native_to_percent(current_native: u32, min_native: u32, max_native: u32) -> (r: u32)
    ensures
        r == percent_of(current_native as int, min_native as int, max_native as int),
{
    let max_n = normalize_native_max(max_native);
    if max_n <= min_native {
        return if current_native < 100 {
            current_native
        } else {
            100
        };
    }
    let cur = if current_native < min_native {
        min_native
    } else if current_native > max_n {
        max_n
    } else {
        current_native
    };
    let span: u64 = (max_n - min_native) as u64;
    let up: u64 = (cur - min_native) as u64;
    proof {
        percent_within_hundred(current_native as int, min_native as int, max_native as int);
    }
    ((up * 100 + span / 2) / span) as u32
}

// ---------------------------------------------------------------------------
// Laws
// ---------------------------------------------------------------------------

/// Clamping gives a safe percentage, keeps a safe percentage, and keeps the order.
pub proof fn clamped_is_safe(a: int, b: int)
    ensures
        MIN_BRIGHTNESS_PERCENT <= clamped(a) <= MAX_BRIGHTNESS_PERCENT,
        MIN_BRIGHTNESS_PERCENT <= a <= MAX_BRIGHTNESS_PERCENT ==> clamped(a) == a,
        clamped(clamped(a)) == clamped(a),
        a <= b ==> clamped(a) <= clamped(b),
{
}

/// A percentage that was read is between zero and one hundred.
pub proof fn percent_within_hundred(current: int, min: int, max: int)
    requires
        0 <= current,
    ensures
        0 <= percent_of(current, min, max) <= 100,
{
    let span = native_span(min, max);
    if span > 0 {
        let up = into_range(current, min, max) - min;
        let b = (up * 100 + span / 2) / span;
        assert(0 <= b <= 100) by (nonlinear_arith)
            requires
                span > 0,
                0 <= up <= span,
                b == (up * 100 + span / 2) / span,
        ;
    }
}

/// The ends of a native range read as zero and one hundred percent.
pub proof fn ends_read_as_zero_and_hundred(min: int, max: int)
    requires
        native_span(min, max) > 0,
    ensures
        percent_of(min, min, max) == 0,
        percent_of(native_max(max), min, max) == 100,
{
    let span = native_span(min, max);
    assert((0 * 100 + span / 2) / span == 0) by (nonlinear_arith)
        requires
            span > 0,
    ;
    assert((span * 100 + span / 2) / span == 100) by (nonlinear_arith)
        requires
            span > 0,
    ;
}

/// A higher native value reads as no lower a percentage.
pub proof fn reading_keeps_order(a: int, b: int, min: int, max: int)
    requires
        a <= b,
    ensures
        percent_of(a, min, max) <= percent_of(b, min, max),
{
    let span = native_span(min, max);
    if span > 0 {
        let x = (into_range(a, min, max) - min) * 100 + span / 2;
        let y = (into_range(b, min, max) - min) * 100 + span / 2;
        vstd::arithmetic::div_mod::lemma_div_is_ordered(x, y, span);
    }
}

/// A higher percentage sets no lower a native value.
pub proof fn setting_keeps_order(p: int, q: int, min: int, max: int)
    requires
        p <= q,
    ensures
        native_of(p, min, max) <= native_of(q, min, max),
{
    let span = native_span(min, max);
    if span > 0 {
        assert(clamped(p) * span <= clamped(q) * span) by (nonlinear_arith)
            requires
                clamped(p) <= clamped(q),
                span > 0,
        ;
    }
}

/// The native value that is set lies in the native range, and one hundred percent is its upper end.
pub proof fn setting_stays_in_range(p: int, min: int, max: int)
    requires
        native_span(min, max) > 0,
    ensures
        min <= native_of(p, min, max) <= native_max(max),
        native_of(100, min, max) == native_max(max),
{
    let span = native_span(min, max);
    let c = clamped(p);
    assert(0 <= (c * span + 50) / 100 <= span) by (nonlinear_arith)
        requires
            0 <= c <= 100,
            0 < span,
    ;
    assert((100 * span + 50) / 100 == span);
}

/// Black-screen protection: whatever percentage is asked for, no less is set than for the lowest
/// safe percentage. The lower end of a range with steps is set only where the safe percentage of
/// the range is less than half a step, and in a range without steps no less than the lowest safe
/// percentage is set.
pub proof fn setting_never_blackens(p: int, min: int, max: int)
    ensures
        native_of(p, min, max) >= native_of(MIN_BRIGHTNESS_PERCENT as int, min, max),
        native_span(min, max) > 0 ==> (native_of(p, min, max) > min <==> clamped(p) * native_span(
            min,
            max,
        ) >= 50),
        native_span(min, max) <= 0 ==> native_of(p, min, max) >= MIN_BRIGHTNESS_PERCENT,
{
    let span = native_span(min, max);
    if span > 0 {
        setting_keeps_order(MIN_BRIGHTNESS_PERCENT as int, clamped(p), min, max);
        let n = clamped(p) * span;
        assert(n >= 0) by (nonlinear_arith)
            requires
                n == clamped(p) * span,
                clamped(p) >= 0,
                span > 0,
        ;
    }
}

/// By how many hundredths of a native step the value that is set exceeds the exact percentage of
/// the range.
pub open spec fn rounding(p: int, min: int, max: int) -> int {
    let exact = clamped(p) * native_span(min, max);
    100 * ((exact + 50) / 100) - exact
}

/// What is read after a percentage was set is the safe percentage, plus the rounding error of the
/// native value as a percentage of the range, rounded in its turn.
pub proof fn reads_back(p: int, min: int, max: int)
    requires
        native_span(min, max) > 0,
    ensures
        -49 <= rounding(p, min, max) <= 50,
        percent_of(native_of(p, min, max), min, max) == clamped(p) + (rounding(p, min, max)
            + native_span(min, max) / 2) / native_span(min, max),
{
    let span = native_span(min, max);
    let c = clamped(p);
    let n = (c * span + 50) / 100;
    let e = rounding(p, min, max);
    setting_stays_in_range(p, min, max);
    assert(into_range(min + n, min, max) == min + n);
    assert(n * 100 + span / 2 == c * span + (e + span / 2));
    let k = (e + span / 2) / span;
    assert((c * span + (e + span / 2)) / span == c + k) by (nonlinear_arith)
        requires
            span > 0,
            k == (e + span / 2) / span,
    ;
}

/// A percentage that was set reads back within one of the safe percentage exactly where the
/// rounding error of the native value is small against the range. That is so on every monitor with
/// at least thirty-four native steps; with thirty-three, fifty percent reads back as fifty-two. On
/// a monitor with one hundred steps or more, and in a range without steps, it reads back exactly.
pub proof fn reads_back_within_one(p: int, min: int, max: int)
    ensures
        ({
            let span = native_span(min, max);
            let d = percent_of(native_of(p, min, max), min, max) - clamped(p);
            &&& -1 <= d <= 1 <==> (span <= 0 || -span <= rounding(p, min, max) + span / 2 < 2
                * span)
            &&& span >= 34 ==> -1 <= d <= 1
            &&& span >= 100 || span <= 0 ==> d == 0
        }),
{
    let span = native_span(min, max);
    if span > 0 {
        reads_back(p, min, max);
        let x = rounding(p, min, max) + span / 2;
        let d = x / span;
        assert(-1 <= d <= 1 <==> -span <= x < 2 * span) by (nonlinear_arith)
            requires
                span > 0,
                d == x / span,
        ;
        if span >= 100 {
            if span == 100 {
                let c = clamped(p);
                assert(c * span == c * 100) by (nonlinear_arith)
                    requires
                        span == 100,
                ;
                assert((c * 100 + 50) / 100 == c) by (nonlinear_arith);
            }
            assert(d == 0) by (nonlinear_arith)
                requires
                    0 <= x < span,
                    d == x / span,
            ;
        }
    }
}

/// Ten to one hundred percent are set as they were asked for; less becomes ten, and more becomes
/// one hundred.
pub proof fn asked_percentages_become_safe(v: int)
    ensures
        10 <= v <= 100 ==> clamped(v) == v,
        v < 10 ==> clamped(v) == 10,
        v > 100 ==> clamped(v) == 100,
{
}

/// A level up to one hundred percent that was read is shown as it is, however low; a higher one is
/// shown as one hundred. No two levels up to one hundred are shown alike.
pub proof fn read_levels_are_kept(a: int, b: int)
    ensures
        a <= 100 ==> capped(a) == a,
        a > 100 ==> capped(a) == 100,
        a < b <= 100 ==> capped(a) < capped(b),
{
}

/// What is set is the step of the native range that is nearest to the safe percentage of it, and
/// the upper one of two that are equally near. A monitor whose range has no upper end counts to one
/// hundred. In a range without steps the safe percentage itself is set.
pub proof fn setting_is_nearest(p: int, min: int, max: int)
    ensures
        ({
            let top = if max == 0 {
                100
            } else {
                max
            };
            let safe = if p < 10 {
                10
            } else if p > 100 {
                100
            } else {
                p
            };
            if top > min {
                -50 < 100 * (native_of(p, min, max) - min) - safe * (top - min) <= 50
            } else {
                native_of(p, min, max) == safe
            }
        }),
{
}

/// What is read is the percentage that is nearest to where the native value stands in its range,
/// and the upper one of two that are equally near. A value beyond an end stands at that end. A
/// monitor whose range has no upper end counts to one hundred. In a range without steps the native
/// value itself is read, up to one hundred.
pub proof fn reading_is_nearest(current: int, min: int, max: int)
    ensures
        ({
            let top = if max == 0 {
                100
            } else {
                max
            };
            let span = top - min;
            let at = if current < min {
                min
            } else if current > top {
                top
            } else {
                current
            };
            if span > 0 {
                -span < 2 * (percent_of(current, min, max) * span - 100 * (at - min)) <= span
            } else if current <= 100 {
                percent_of(current, min, max) == current
            } else {
                percent_of(current, min, max) == 100
            }
        }),
{
    let span = native_span(min, max);
    if span > 0 {
        let up = into_range(current, min, max) - min;
        let x = up * 100 + span / 2;
        let p = percent_of(current, min, max);
        assert(p * span <= x < p * span + span) by (nonlinear_arith)
            requires
                p == x / span,
                span > 0,
        ;
    }
}

} // verus!
