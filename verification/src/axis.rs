//! The teaching day down the body of the table: its period boundaries, and
//! the scale from minutes to whole pixels.

use crate::geometry::floor_div;
use crate::geometry::SCREEN;
use crate::text::all_digits;
use crate::text::decimal_value;
use crate::text::is_digit;
use crate::text::lemma_decimal_value_is_not_negative;
use crate::text::number_of;
use crate::text::parse_number;
use crate::text::split_at_first;
use crate::text::split_once;
use vstd::prelude::*;

verus! {

/// The first period boundary, 9:00, in minutes since midnight.
pub const AXIS_START: i32 = 540;

/// The last period boundary, 17:00, in minutes since midnight.
pub const AXIS_END: i32 = 1020;

/// The length of the teaching day, in minutes.
pub const AXIS_MINUTES: i32 = 480;

/// The eight period boundaries, in minutes since midnight: four periods
/// with three breaks between them.
pub open spec fn boundaries() -> Seq<u32> {
    seq![540u32, 630u32, 660u32, 750u32, 810u32, 900u32, 930u32, 1020u32]
}

/// The minutes since midnight of a clock time written as hours, a colon and
/// minutes; `None` where `text` is not written so or the number of minutes
/// is more than a `u32` holds.
pub open spec fn clock_minutes(text: Seq<char>) -> Option<int> {
    match split_at_first(text, ':') {
        Some((hours, minutes)) => match (number_of(hours), number_of(minutes)) {
            (Some(h), Some(m)) => if 60 * h + m <= u32::MAX {
                Some(60 * h + m)
            } else {
                None
            },
            _ => None,
        },
        None => None,
    }
}

/// The minutes since midnight of a clock time written as hours, a colon and
/// minutes. The text must be written so, and the number of minutes must be
/// one that a `u32` holds.
pub fn count_minutes(time: &str) -> (r: u32)
    requires
        clock_minutes(time@) is Some,
    ensures
        clock_minutes(time@) == Some(r as int),
{
    let (hours, minutes) = split_once(time, ':').unwrap();
    let h = parse_number(hours).unwrap();
    let m = parse_number(minutes).unwrap();
    60 * h + m
}

/// A clock time written as the digits of its hours, a colon and the digits
/// of its minutes counts sixty minutes for each hour and one for each
/// minute.
pub proof fn lemma_clock_minutes_of_digits(hours: Seq<char>, minutes: Seq<char>)
    requires
        hours.len() > 0,
        minutes.len() > 0,
        all_digits(hours),
        all_digits(minutes),
        60 * decimal_value(hours) + decimal_value(minutes) <= u32::MAX,
    ensures
        clock_minutes(hours + seq![':'] + minutes) == Some(
            60 * decimal_value(hours) + decimal_value(minutes),
        ),
{
    let text = hours + seq![':'] + minutes;
    lemma_decimal_value_is_not_negative(hours);
    lemma_decimal_value_is_not_negative(minutes);
    text.index_of_first_ensures(':');
    assert(text[hours.len() as int] == ':');
    assert forall|i: int| 0 <= i < hours.len() implies text[i] != ':' by {
        assert(is_digit(hours[i]));
    }
    assert(is_digit(hours[0]) && is_digit(minutes[0]));
    assert(text.take(hours.len() as int) == hours);
    assert(text.skip(hours.len() as int + 1) == minutes);
}

/// The whole pixels that `minutes` minutes take in a body of `height`
/// pixels: the body holds the whole teaching day, and a part of a pixel is
/// dropped.
pub open spec fn scaled(minutes: int, height: int) -> int {
    minutes * height / (AXIS_MINUTES as int)
}

/// How far below the top of a body of `height` pixels the minute `minute`
/// of the day lies; above the top, and so below zero, before the first
/// boundary.
pub open spec fn pixel_of(minute: int, height: int) -> int {
    scaled(minute - AXIS_START, height)
}

/// The whole pixels that `minutes` minutes take in a body of `height`
/// pixels.
pub fn minutes_to_pixels(minutes: i32, height: i32) -> (r: i64)
    ensures
        r == scaled(minutes as int, height as int),
{
    assert(-0x4000_0000_0000_0000 <= minutes * height <= 0x4000_0000_0000_0000)
        by (nonlinear_arith)
        requires
            -0x8000_0000 <= minutes <= 0x7fff_ffff,
            -0x8000_0000 <= height <= 0x7fff_ffff,
    ;
    floor_div((minutes as i64) * (height as i64), AXIS_MINUTES as i64)
}

/// The whole pixels that `minutes` minutes of a day take in the body of a
/// screen.
pub(crate) fn scale(minutes: i64, height: i64) -> (r: i64)
    requires
        -1440 <= minutes <= 1440,
        -SCREEN <= height <= SCREEN,
    ensures
        r == scaled(minutes as int, height as int),
        -3 * SCREEN <= r <= 3 * SCREEN,
{
    assert(-1440 * SCREEN <= minutes * height <= 1440 * SCREEN) by (nonlinear_arith)
        requires
            -1440 <= minutes <= 1440,
            -SCREEN <= height <= SCREEN,
    ;
    floor_div(minutes * height, AXIS_MINUTES as i64)
}

/// A later minute never lies higher: the scale from minutes to pixels keeps
/// the order, in a body whose height is not below zero.
pub proof fn lemma_scale_keeps_order(earlier: int, later: int, height: int)
    requires
        earlier <= later,
        0 <= height,
    ensures
        scaled(earlier, height) <= scaled(later, height),
        pixel_of(earlier, height) <= pixel_of(later, height),
{
    assert(earlier * height <= later * height) by (nonlinear_arith)
        requires
            earlier <= later,
            0 <= height,
    ;
    vstd::arithmetic::div_mod::lemma_div_is_ordered(
        earlier * height,
        later * height,
        AXIS_MINUTES as int,
    );
    assert((earlier - AXIS_START) * height <= (later - AXIS_START) * height) by (nonlinear_arith)
        requires
            earlier <= later,
            0 <= height,
    ;
    vstd::arithmetic::div_mod::lemma_div_is_ordered(
        (earlier - AXIS_START) * height,
        (later - AXIS_START) * height,
        AXIS_MINUTES as int,
    );
}

/// The scale from minutes to pixels is a straight line, up to the part of a
/// pixel that it drops: as many pixels to the whole height as minutes to the
/// whole teaching day.
pub proof fn lemma_scale_is_affine(minutes: int, height: int)
    ensures
        AXIS_MINUTES * scaled(minutes, height) <= minutes * height < AXIS_MINUTES * scaled(
            minutes,
            height,
        ) + AXIS_MINUTES,
        (minutes * height) % (AXIS_MINUTES as int) == 0 ==> AXIS_MINUTES * scaled(minutes, height)
            == minutes * height,
{
    vstd::arithmetic::div_mod::lemma_fundamental_div_mod(minutes * height, AXIS_MINUTES as int);
    vstd::arithmetic::div_mod::lemma_mod_bound(minutes * height, AXIS_MINUTES as int);
}

/// The first boundary lies at the top of the body and the last at its
/// bottom.
pub proof fn lemma_axis_ends(height: int)
    ensures
        pixel_of(AXIS_START as int, height) == 0,
        pixel_of(AXIS_END as int, height) == height,
{
    assert((AXIS_END - AXIS_START) * height == 480 * height) by (nonlinear_arith);
    vstd::arithmetic::div_mod::lemma_div_multiples_vanish(height, 480);
}

/// What the eight boundary labels count to.
proof fn lemma_boundary_labels()
    ensures
        clock_minutes("9:00"@) == Some(540int),
        clock_minutes("10:30"@) == Some(630int),
        clock_minutes("11:00"@) == Some(660int),
        clock_minutes("12:30"@) == Some(750int),
        clock_minutes("13:30"@) == Some(810int),
        clock_minutes("15:00"@) == Some(900int),
        clock_minutes("15:30"@) == Some(930int),
        clock_minutes("17:00"@) == Some(1020int),
{
    reveal_with_fuel(decimal_value, 4);
    reveal_strlit("9:00");
    let a = "9:00"@;
    a.index_of_first_ensures(':');
    assert(a[1] == ':');
    reveal_strlit("10:30");
    lemma_long_label("10:30"@, '1', '0', '3', '0');
    reveal_strlit("11:00");
    lemma_long_label("11:00"@, '1', '1', '0', '0');
    reveal_strlit("12:30");
    lemma_long_label("12:30"@, '1', '2', '3', '0');
    reveal_strlit("13:30");
    lemma_long_label("13:30"@, '1', '3', '3', '0');
    reveal_strlit("15:00");
    lemma_long_label("15:00"@, '1', '5', '0', '0');
    reveal_strlit("15:30");
    lemma_long_label("15:30"@, '1', '5', '3', '0');
    reveal_strlit("17:00");
    lemma_long_label("17:00"@, '1', '7', '0', '0');
}

/// A label of two digits, a colon and two digits splits at the colon.
proof fn lemma_long_label(label: Seq<char>, a: char, b: char, c: char, d: char)
    requires
        label =~= seq![a, b, ':', c, d],
        a != ':',
        b != ':',
    ensures
        split_at_first(label, ':') == Some((seq![a, b], seq![c, d])),
{
    label.index_of_first_ensures(':');
}

/// The eight period boundaries, in minutes since midnight, counted from
/// their clock times.
pub fn period_boundaries() -> (r: Vec<u32>)
    ensures
        r@ == boundaries(),
{
    proof {
        lemma_boundary_labels();
    }
    let mut minutes: Vec<u32> = Vec::new();
    minutes.push(count_minutes("9:00"));
    minutes.push(count_minutes("10:30"));
    minutes.push(count_minutes("11:00"));
    minutes.push(count_minutes("12:30"));
    minutes.push(count_minutes("13:30"));
    minutes.push(count_minutes("15:00"));
    minutes.push(count_minutes("15:30"));
    minutes.push(count_minutes("17:00"));
    minutes
}

/// Two stretches of minutes take no more pixels apart than together.
pub proof fn lemma_scale_of_a_sum(a: int, b: int, height: int)
    ensures
        scaled(a, height) + scaled(b, height) <= scaled(a + b, height),
{
    let n = AXIS_MINUTES as int;
    vstd::arithmetic::div_mod::lemma_fundamental_div_mod(a * height, n);
    vstd::arithmetic::div_mod::lemma_mod_bound(a * height, n);
    vstd::arithmetic::div_mod::lemma_fundamental_div_mod(b * height, n);
    vstd::arithmetic::div_mod::lemma_mod_bound(b * height, n);
    vstd::arithmetic::div_mod::lemma_fundamental_div_mod((a + b) * height, n);
    vstd::arithmetic::div_mod::lemma_mod_bound((a + b) * height, n);
    assert((a + b) * height == a * height + b * height) by (nonlinear_arith);
}

} // verus!
