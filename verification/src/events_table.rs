//! The week grid: where the header labels, the break bands, the marks of
//! today and now, and the cards of the events of one week go.
//!
//! All places are whole pixels. The grid has five columns of equal width,
//! Monday to Friday, under a header; down the body runs the teaching day,
//! from the first period boundary to the last.

use crate::axis::boundaries;
use crate::axis::lemma_axis_ends;
use crate::axis::lemma_scale_keeps_order;
use crate::axis::lemma_scale_of_a_sum;
use crate::axis::period_boundaries;
use crate::axis::pixel_of;
use crate::axis::scale;
use crate::axis::scaled;
use crate::axis::AXIS_END;
use crate::axis::AXIS_MINUTES;
use crate::axis::AXIS_START;
use crate::calendar::is_weekend;
use crate::calendar::DateTime;
use crate::calendar::Date;
use crate::calendar::Hms;
use crate::calendar::IsoWeek;
use crate::calendar::Ymd;
use crate::geometry::floor_div;
use crate::geometry::shift_color;
use crate::geometry::shifted_color;
use crate::geometry::Area;
use crate::geometry::Color;
use crate::geometry::Rect;
use crate::geometry::SCREEN;
use crate::text::push_char;
use crate::text::push_two_digits;
use crate::text::two_digits;
use crate::tiles::draw_repeating_texture;
use crate::tiles::tiles_of;
use crate::tiles::TextureSize;
use crate::timetable::events_view;
use crate::timetable::Event;
use crate::timetable::EventCategory;
use crate::timetable::EventView;
use vstd::prelude::*;

verus! {

/// The height of the header, in pixels.
pub const HEADER_SIZE: i32 = 50;

/// The number of day columns: Monday to Friday.
pub const COLUMNS: i32 = 5;

/// The room between a card and the edges of its column, in pixels.
pub const CARD_GUTTER: i64 = 10;

/// The width of the border of a card, in pixels.
pub const CARD_BORDER: i64 = 4;

/// The room between the edge of a card and its text, in pixels.
pub const CARD_MARGIN: i64 = 6;

/// The least width of a card, in sizes of its text.
pub const CARD_MIN_CHARS: i64 = 6;

/// The most rows that the title of a card takes.
pub const CARD_TITLE_ROWS: u32 = 2;

/// The width of the line between two columns, in pixels.
pub const COLUMN_GAP: i64 = 3;

/// The width of the line that marks the present time, in pixels.
pub const MARKER_THICKNESS: i64 = 2;

/// The width of the outline on each side of that line, in pixels.
pub const MARKER_BORDER: i64 = 2;

/// How far the date of a day stands from the right and the lower edge of
/// its column in the header, in pixels.
pub const DATE_INSET: i64 = 3;

/// The width of one of the five columns of `rect`.
pub open spec fn column_width(rect: Rect) -> int {
    (rect.width as int) / (COLUMNS as int)
}

/// The left edge of column `column` of `rect`; Monday is column 0.
pub open spec fn column_left(rect: Rect, column: int) -> int {
    rect.left + column * column_width(rect)
}

/// The width of one of the five columns of `rect`.
fn column_width_in(rect: Rect) -> (r: i64)
    requires
        rect.is_screen(),
    ensures
        r == column_width(rect),
        -SCREEN <= r <= SCREEN,
{
    floor_div(rect.width, COLUMNS as i64)
}

/// The left edge of column `column` of `rect`.
fn column_left_in(rect: Rect, column: i64) -> (r: i64)
    requires
        rect.is_screen(),
        0 <= column <= 7,
    ensures
        r == column_left(rect, column as int),
        -8 * SCREEN <= r <= 8 * SCREEN,
{
    let width = column_width_in(rect);
    assert(-7 * SCREEN <= column * width <= 7 * SCREEN) by (nonlinear_arith)
        requires
            0 <= column <= 7,
            -SCREEN <= width <= SCREEN,
    ;
    rect.left + column * width
}

/// The name of a day in the header and the date under it, each with the
/// point that it is set at: the name by its centre, the date by its lower
/// right corner.
#[derive(Debug)]
pub struct DayLabel {
    pub name: String,
    pub name_x: i64,
    pub name_y: i64,
    pub date: String,
    pub date_x: i64,
    pub date_y: i64,
}

/// What a [`DayLabel`] holds.
pub struct DayLabelView {
    pub name: Seq<char>,
    pub name_x: int,
    pub name_y: int,
    pub date: Seq<char>,
    pub date_x: int,
    pub date_y: int,
}

impl View for DayLabel {
    type V = DayLabelView;

    open spec fn view(&self) -> DayLabelView {
        DayLabelView {
            name: self.name@,
            name_x: self.name_x as int,
            name_y: self.name_y as int,
            date: self.date@,
            date_x: self.date_x as int,
            date_y: self.date_y as int,
        }
    }
}

/// The header of the table: its place and the labels of its five days.
#[derive(Debug)]
pub struct Header {
    pub rect: Rect,
    pub days: Vec<DayLabel>,
}

/// What a [`Header`] holds.
pub struct HeaderView {
    pub rect: Rect,
    pub days: Seq<DayLabelView>,
}

impl View for Header {
    type V = HeaderView;

    open spec fn view(&self) -> HeaderView {
        HeaderView { rect: self.rect, days: self.days@.map_values(|d: DayLabel| d@) }
    }
}

/// What a header that may be absent holds.
pub open spec fn header_view(header: Option<Header>) -> Option<HeaderView> {
    match header {
        Some(h) => Some(h@),
        None => None,
    }
}

/// The name of the day of column `column`.
pub open spec fn day_name(column: int) -> Seq<char> {
    if column == 0 {
        "Pir"@
    } else if column == 1 {
        "Ant"@
    } else if column == 2 {
        "Tre"@
    } else if column == 3 {
        "Ket"@
    } else {
        "Pen"@
    }
}

/// The month and the day of `date`, two digits each, with a hyphen between.
pub open spec fn date_label(date: Ymd) -> Seq<char> {
    two_digits(date.month) + seq!['-'] + two_digits(date.day)
}

/// The day reached from `monday` by going on one day `days` times; `None`
/// where a day on the way is out of range.
pub open spec fn day_after(monday: Ymd, days: nat) -> Option<Ymd>
    decreases days,
{
    if days == 0 {
        Some(monday)
    } else {
        match day_after(monday, (days - 1) as nat) {
            Some(day) => day.plus_days(1),
            None => None,
        }
    }
}

/// The label of column `column` of a header at `rect`, for the day `date`.
pub open spec fn day_label_of(rect: Rect, column: int, date: Ymd) -> DayLabelView {
    DayLabelView {
        name: day_name(column),
        name_x: column_left(rect, column) + column_width(rect) / 2,
        name_y: rect.top + rect.height * 2 / 5,
        date: date_label(date),
        date_x: column_left(rect, column + 1) - DATE_INSET,
        date_y: rect.top + rect.height - DATE_INSET,
    }
}

/// Whether `monday` is a day, a Monday, and lies in `week`.
pub open spec fn starts_the_week(monday: Option<Ymd>, week: IsoWeek) -> bool {
    monday matches Some(day) && day.weekday() == 0 && day.iso_week() == week
}

/// The header at `rect` for the week `week`; `None` where the week has no
/// Monday or one of its first five days is out of range.
pub open spec fn header_of(rect: Rect, week: IsoWeek) -> Option<HeaderView> {
    match week.spec_monday() {
        Some(monday) => {
            if day_after(monday, 4) is Some {
                Some(
                    HeaderView {
                        rect,
                        days: Seq::new(
                            5,
                            |column: int| day_label_of(rect, column, day_after(monday, column as nat)->0),
                        ),
                    },
                )
            } else {
                None
            }
        },
        None => None,
    }
}

/// The name of the day of column `column`.
fn day_name_in(column: usize) -> (r: &'static str)
    ensures
        r@ == day_name(column as int),
{
    if column == 0 {
        "Pir"
    } else if column == 1 {
        "Ant"
    } else if column == 2 {
        "Tre"
    } else if column == 3 {
        "Ket"
    } else {
        "Pen"
    }
}

/// The month and the day of `date`, two digits each, with a hyphen between.
pub fn format_date(date: &Date) -> (r: String)
    ensures
        r@ == date_label(date@),
{
    let mut label = String::new();
    push_two_digits(&mut label, date.month());
    push_char(&mut label, '-');
    push_two_digits(&mut label, date.day());
    label
}

/// The header at `rect` for the week `week`.
fn header_in(rect: Rect, week: IsoWeek) -> (r: Option<Header>)
    requires
        rect.is_screen(),
    ensures
        header_view(r) == header_of(rect, week),
        r is Some ==> starts_the_week(week.spec_monday(), week),
{
    let monday = match week.monday() {
        Some(monday) => monday,
        None => { return None; },
    };
    let width = column_width_in(rect);
    let name_y = rect.top + floor_div(rect.height * 2, 5);
    let date_y = rect.top + rect.height - DATE_INSET;
    let mut days: Vec<DayLabel> = Vec::new();
    let mut date = monday;
    let mut column: usize = 0;
    while column < 5
        invariant
            column <= 5,
            rect.is_screen(),
            week.spec_monday() == Some(monday@),
            width == column_width(rect),
            name_y == rect.top + rect.height * 2 / 5,
            date_y == rect.top + rect.height - DATE_INSET,
            column < 5 ==> day_after(monday@, column as nat) == Some(date@),
            column == 5 ==> day_after(monday@, 4) is Some,
            days@.len() == column,
            forall|k: int|
                0 <= k < column ==> (#[trigger] days@[k])@ == day_label_of(
                    rect,
                    k,
                    day_after(monday@, k as nat)->0,
                ),
        decreases 5 - column,
    {
        let left = column_left_in(rect, column as i64);
        let next = column_left_in(rect, column as i64 + 1);
        days.push(
            DayLabel {
                name: day_name_in(column).to_string(),
                name_x: left + floor_div(width, 2),
                name_y,
                date: format_date(&date),
                date_x: next - DATE_INSET,
                date_y,
            },
        );
        if column < 4 {
            date = match date.checked_add_days(1) {
                Some(next_day) => next_day,
                None => {
                    proof {
                        lemma_day_after_stays_absent(monday@, (column + 1) as nat, 4);
                    }
                    return None;
                },
            };
        }
        column += 1;
    }
    let header = Header { rect, days };
    assert(header@.days =~= header_of(rect, week)->0.days);
    Some(header)
}

/// Once a day on the way is out of range, so is every later one.
proof fn lemma_day_after_stays_absent(monday: Ymd, from: nat, to: nat)
    requires
        from <= to,
        day_after(monday, from) is None,
    ensures
        day_after(monday, to) is None,
    decreases to,
{
    if from < to {
        lemma_day_after_stays_absent(monday, from, (to - 1) as nat);
    }
}

/// The colour of the cards of a category.
pub open spec fn category_color(category: EventCategory) -> Color {
    match category {
        EventCategory::Default => Color { r: 160, g: 160, b: 160 },
        EventCategory::Yellow => Color { r: 251, g: 184, b: 41 },
        EventCategory::Green => Color { r: 152, g: 188, b: 55 },
        EventCategory::Red => Color { r: 247, g: 83, b: 65 },
        EventCategory::Blue => Color { r: 10, g: 174, b: 179 },
    }
}

/// The colour of the cards of a category.
pub fn get_category_bg(category: EventCategory) -> (r: Color)
    ensures
        r == category_color(category),
{
    match category {
        EventCategory::Default => Color { r: 160, g: 160, b: 160 },
        EventCategory::Yellow => Color { r: 251, g: 184, b: 41 },
        EventCategory::Green => Color { r: 152, g: 188, b: 55 },
        EventCategory::Red => Color { r: 247, g: 83, b: 65 },
        EventCategory::Blue => Color { r: 10, g: 174, b: 179 },
    }
}

/// No two categories have one colour: the colour of a card tells its
/// category.
pub proof fn lemma_colours_tell_categories_apart(a: EventCategory, b: EventCategory)
    ensures
        category_color(a) == category_color(b) <==> a == b,
{
}

/// How much lighter than the card its border is, in hundredths.
pub const BORDER_SHIFT: u32 = 125;

/// The card of one event: its place, the place of its border and of its
/// text, its colours and its two texts. The title takes
/// [`CARD_TITLE_ROWS`] rows at most; the times stand under it.
#[derive(Debug)]
pub struct Card {
    pub rect: Rect,
    pub border: Rect,
    pub content: Rect,
    pub fill: Color,
    pub stroke: Color,
    pub title: String,
    pub times: String,
}

/// What a [`Card`] holds.
pub struct CardView {
    pub rect: Rect,
    pub border: Rect,
    pub content: Rect,
    pub fill: Color,
    pub stroke: Color,
    pub title: Seq<char>,
    pub times: Seq<char>,
}

impl View for Card {
    type V = CardView;

    open spec fn view(&self) -> CardView {
        CardView {
            rect: self.rect,
            border: self.border,
            content: self.content,
            fill: self.fill,
            stroke: self.stroke,
            title: self.title@,
            times: self.times@,
        }
    }
}

/// What a sequence of cards holds.
pub open spec fn cards_view(cards: Seq<Card>) -> Seq<CardView> {
    cards.map_values(|c: Card| c@)
}

/// The hour and the minute of `time`, two digits each, with a colon between.
pub open spec fn clock_label(time: Hms) -> Seq<char> {
    two_digits(time.hour) + seq![':'] + two_digits(time.minute)
}

/// The start and the end of `event` as clock times, with a hyphen between.
pub open spec fn time_label(event: EventView) -> Seq<char> {
    clock_label(event.start_time) + seq!['-'] + clock_label(event.end_time)
}

/// The title of the card of `event`: the name of its module where it has
/// one, else its summary.
pub open spec fn card_title(event: EventView) -> Seq<char> {
    match event.module_name {
        Some(name) => name,
        None => event.summary,
    }
}

/// The place of `event` in a body at `body`: the column of its weekday, less
/// a gutter on either side, from its start down as far as it lasts.
pub open spec fn event_rect(body: Rect, event: EventView) -> Rect {
    Rect {
        left: (column_left(body, event.date.weekday()) + CARD_GUTTER) as i64,
        top: (body.top + pixel_of(event.start_time.minute_of_day(), body.height as int)) as i64,
        width: (column_width(body) - 2 * CARD_GUTTER) as i64,
        height: scaled(
            event.start_time.minutes_until(event.end_time),
            body.height as int,
        ) as i64,
    }
}

/// The card of `event` at `rect`, made no narrower than six sizes of its
/// text.
pub open spec fn card_of(event: EventView, rect: Rect, text_size: int) -> CardView {
    let least = CARD_MIN_CHARS * text_size;
    let frame = Rect {
        left: rect.left,
        top: rect.top,
        width: if rect.width < least {
            least as i64
        } else {
            rect.width
        },
        height: rect.height,
    };
    CardView {
        rect: frame,
        border: frame.shrunk(CARD_BORDER / 2),
        content: frame.shrunk(CARD_MARGIN as int),
        fill: category_color(event.category),
        stroke: shifted_color(category_color(event.category), BORDER_SHIFT as int),
        title: card_title(event),
        times: time_label(event),
    }
}

/// The start and the end of `event` as clock times, with a hyphen between.
pub fn format_times(event: &Event) -> (r: String)
    ensures
        r@ == time_label(event@),
{
    let mut label = String::new();
    push_two_digits(&mut label, event.start_time.hour());
    push_char(&mut label, ':');
    push_two_digits(&mut label, event.start_time.minute());
    push_char(&mut label, '-');
    push_two_digits(&mut label, event.end_time.hour());
    push_char(&mut label, ':');
    push_two_digits(&mut label, event.end_time.minute());
    label
}

/// The card of `event` at `rect`.
fn card_in(event: &Event, rect: Rect, text_size: u32) -> (r: Card)
    requires
        rect.is_within(16 * SCREEN),
    ensures
        r@ == card_of(event@, rect, text_size as int),
{
    let least: i64 = CARD_MIN_CHARS * (text_size as i64);
    let frame = Rect {
        left: rect.left,
        top: rect.top,
        width: if rect.width < least {
            least
        } else {
            rect.width
        },
        height: rect.height,
    };
    let fill = get_category_bg(event.category);
    let title = match &event.module_name {
        Some(name) => name.clone(),
        None => event.summary.clone(),
    };
    Card {
        rect: frame,
        border: Rect {
            left: frame.left + CARD_BORDER / 2,
            top: frame.top + CARD_BORDER / 2,
            width: frame.width - CARD_BORDER,
            height: frame.height - CARD_BORDER,
        },
        content: Rect {
            left: frame.left + CARD_MARGIN,
            top: frame.top + CARD_MARGIN,
            width: frame.width - 2 * CARD_MARGIN,
            height: frame.height - 2 * CARD_MARGIN,
        },
        fill,
        stroke: shift_color(fill, BORDER_SHIFT),
        title,
        times: format_times(event),
    }
}

/// The place of `event` in a body at `body`.
fn event_rect_in(body: Rect, event: &Event) -> (r: Rect)
    requires
        body.is_screen(),
    ensures
        r == event_rect(body, event@),
        r.is_within(16 * SCREEN),
{
    let day = event.date.weekday().num_days_from_monday();
    let start = event.start_time.minute_of_day();
    let lasts = event.start_time.minutes_until(&event.end_time);
    Rect {
        left: column_left_in(body, day as i64) + CARD_GUTTER,
        top: body.top + scale(start as i64 - AXIS_START as i64, body.height),
        width: column_width_in(body) - 2 * CARD_GUTTER,
        height: scale(lasts, body.height),
    }
}

/// One break between two periods: its place across the body, and the tiles
/// of the picture that fills it, where there is a picture.
#[derive(Debug)]
pub struct Band {
    pub rect: Rect,
    pub tiles: Option<Vec<Rect>>,
}

/// What a [`Band`] holds.
pub struct BandView {
    pub rect: Rect,
    pub tiles: Option<Seq<Rect>>,
}

impl View for Band {
    type V = BandView;

    open spec fn view(&self) -> BandView {
        BandView {
            rect: self.rect,
            tiles: match self.tiles {
                Some(tiles) => Some(tiles@),
                None => None,
            },
        }
    }
}

/// The line across the body that marks the present time.
#[derive(Clone, Copy, Debug, PartialEq, Eq, Structural)]
pub struct Marker {
    pub left: i64,
    pub right: i64,
    pub y: i64,
}

/// The body of the table: its place, the column of today where it is
/// shown, the lines between the columns, the break bands, the cards and the
/// mark of the present time where it is shown. They are painted in this
/// order, so that the cards lie over the column of today and the mark of the
/// present time over the cards.
#[derive(Debug)]
pub struct Body {
    pub rect: Rect,
    pub highlight: Option<Rect>,
    pub separators: Vec<i64>,
    pub bands: Vec<Band>,
    pub cards: Vec<Card>,
    pub marker: Option<Marker>,
}

/// What a [`Body`] holds.
pub struct BodyView {
    pub rect: Rect,
    pub highlight: Option<Rect>,
    pub separators: Seq<i64>,
    pub bands: Seq<BandView>,
    pub cards: Seq<CardView>,
    pub marker: Option<Marker>,
}

impl View for Body {
    type V = BodyView;

    open spec fn view(&self) -> BodyView {
        BodyView {
            rect: self.rect,
            highlight: self.highlight,
            separators: self.separators@,
            bands: self.bands@.map_values(|b: Band| b@),
            cards: cards_view(self.cards@),
            marker: self.marker,
        }
    }
}

/// The column of today in a body at `body` that shows `week`: none in
/// another week, and none on a Saturday or Sunday.
pub open spec fn highlight_of(body: Rect, week: IsoWeek, today: Ymd) -> Option<Rect> {
    if today.iso_week() == week && !today.is_weekend() {
        Some(
            Rect {
                left: column_left(body, today.weekday()) as i64,
                top: body.top,
                width: column_width(body) as i64,
                height: body.height,
            },
        )
    } else {
        None
    }
}

/// The four lines between the five columns of `body`.
pub open spec fn separators_of(body: Rect) -> Seq<i64> {
    Seq::new(4, |i: int| column_left(body, i + 1) as i64)
}

/// The band across `body` from the minute `from` of the day to the minute
/// `to`.
pub open spec fn band_rect(body: Rect, from: int, to: int) -> Rect {
    Rect {
        left: body.left,
        top: (body.top + pixel_of(from, body.height as int)) as i64,
        width: body.width,
        height: (pixel_of(to, body.height as int) - pixel_of(from, body.height as int)) as i64,
    }
}

/// The break bands of `body`: one between each period and the next.
pub open spec fn bands_of(body: Rect, texture: Option<TextureSize>) -> Seq<BandView> {
    Seq::new(
        3,
        |k: int|
            {
                let rect = band_rect(
                    body,
                    boundaries()[2 * k + 1] as int,
                    boundaries()[2 * k + 2] as int,
                );
                BandView {
                    rect,
                    tiles: match texture {
                        Some(size) => Some(tiles_of(rect, size)),
                        None => None,
                    },
                }
            },
    )
}

/// The events that do not lie on a Saturday or Sunday.
pub open spec fn on_weekday() -> spec_fn(EventView) -> bool {
    |e: EventView| !e.date.is_weekend()
}

/// The cards of `events` in a body at `body`: one for each event, in their
/// order, but none for an event on a Saturday or Sunday.
pub open spec fn cards_of(body: Rect, events: Seq<EventView>, text_size: int) -> Seq<CardView> {
    events.filter(on_weekday()).map_values(
        |e: EventView| card_of(e, event_rect(body, e), text_size),
    )
}

/// The mark of the present time in a body at `body`: none before or at the
/// first boundary, none at or after the last, and none on a Saturday or
/// Sunday.
pub open spec fn marker_of(body: Rect, today: Ymd, time: Hms) -> Option<Marker> {
    if AXIS_START < time.minute_of_day() < AXIS_END && !today.is_weekend() {
        Some(
            Marker {
                left: body.left,
                right: (body.left + body.width) as i64,
                y: (body.top + pixel_of(time.minute_of_day(), body.height as int)) as i64,
            },
        )
    } else {
        None
    }
}

/// The body at `body` that shows the events `events` of the week `week` at
/// the moment `today`, `time`.
pub open spec fn body_of(
    body: Rect,
    week: IsoWeek,
    today: Ymd,
    time: Hms,
    events: Seq<EventView>,
    text_size: int,
    texture: Option<TextureSize>,
) -> BodyView {
    BodyView {
        rect: body,
        highlight: highlight_of(body, week, today),
        separators: separators_of(body),
        bands: bands_of(body, texture),
        cards: cards_of(body, events, text_size),
        marker: marker_of(body, today, time),
    }
}

/// On a Saturday and on a Sunday the body marks neither the day nor the
/// time, whatever the week, the place and the hour.
pub proof fn lemma_weekend_is_unmarked(
    body: Rect,
    week: IsoWeek,
    today: Ymd,
    time: Hms,
    events: Seq<EventView>,
    text_size: int,
    texture: Option<TextureSize>,
)
    requires
        today.is_weekend(),
    ensures
        body_of(body, week, today, time, events, text_size, texture).highlight is None,
        body_of(body, week, today, time, events, text_size, texture).marker is None,
{
}

/// In a body whose height is not below zero, each break band lies within
/// the body from top to bottom, and spans it from side to side.
pub proof fn lemma_bands_lie_in_the_body(body: Rect, texture: Option<TextureSize>, k: int)
    requires
        0 <= body.height,
        body.is_screen(),
        0 <= k < 3,
    ensures
        bands_of(body, texture)[k].rect.left == body.left,
        bands_of(body, texture)[k].rect.width == body.width,
        body.top <= bands_of(body, texture)[k].rect.top,
        0 <= bands_of(body, texture)[k].rect.height,
        bands_of(body, texture)[k].rect.top + bands_of(body, texture)[k].rect.height <= body.top
            + body.height,
{
    let height = body.height as int;
    let from = boundaries()[2 * k + 1] as int;
    let to = boundaries()[2 * k + 2] as int;
    lemma_scale_keeps_order(AXIS_START as int, from, height);
    lemma_scale_keeps_order(from, to, height);
    lemma_scale_keeps_order(to, AXIS_END as int, height);
    lemma_axis_ends(height);
}

/// In a body whose height is not below zero, the card of an event that
/// starts no earlier than the first boundary, ends no later than the last
/// and does not end before it starts lies within the body from top to
/// bottom.
pub proof fn lemma_a_lesson_lies_in_the_body(body: Rect, event: EventView)
    requires
        0 <= body.height,
        body.is_screen(),
        event.start_time.is_valid(),
        event.end_time.is_valid(),
        AXIS_START <= event.start_time.minute_of_day(),
        event.end_time.minute_of_day() <= AXIS_END,
        event.start_time.second_of_day() <= event.end_time.second_of_day(),
    ensures
        body.top <= event_rect(body, event).top,
        0 <= event_rect(body, event).height,
        event_rect(body, event).top + event_rect(body, event).height <= body.top + body.height,
{
    let height = body.height as int;
    let start = event.start_time.minute_of_day();
    let end = event.end_time.minute_of_day();
    let lasts = event.start_time.minutes_until(event.end_time);
    lemma_scale_keeps_order(AXIS_START as int, start, height);
    lemma_scale_keeps_order(0, lasts, height);
    lemma_scale_of_a_sum(lasts, start - AXIS_START, height);
    lemma_scale_keeps_order(lasts + start - AXIS_START, end - AXIS_START, height);
    lemma_scale_keeps_order(end - AXIS_START, AXIS_MINUTES as int, height);
    lemma_axis_ends(height);
}

/// The break bands of `body`.
fn bands_in(body: Rect, texture: Option<TextureSize>) -> (r: Vec<Band>)
    requires
        body.is_screen(),
    ensures
        r@.map_values(|b: Band| b@) == bands_of(body, texture),
{
    let minutes = period_boundaries();
    let mut bands: Vec<Band> = Vec::new();
    let mut i: usize = 1;
    while i + 1 < minutes.len()
        invariant
            body.is_screen(),
            minutes@ == boundaries(),
            i == 2 * bands.len() + 1,
            bands.len() <= 3,
            forall|k: int|
                0 <= k < bands.len() ==> (#[trigger] bands@[k])@ == bands_of(body, texture)[k],
        decreases minutes.len() - i,
    {
        let from = scale(minutes[i] as i64 - AXIS_START as i64, body.height);
        let to = scale(minutes[i + 1] as i64 - AXIS_START as i64, body.height);
        let rect = Rect {
            left: body.left,
            top: body.top + from,
            width: body.width,
            height: to - from,
        };
        let tiles = draw_repeating_texture(texture, rect);
        bands.push(Band { rect, tiles });
        i += 2;
    }
    bands
}

/// The body at `body`.
fn body_in(
    body: Rect,
    week: IsoWeek,
    now: DateTime,
    events: &[Event],
    text_size: u32,
    texture: Option<TextureSize>,
) -> (r: Body)
    requires
        body.is_screen(),
    ensures
        r@ == body_of(
            body,
            week,
            now.date@,
            now.time@,
            events_view(events@),
            text_size as int,
            texture,
        ),
{
    let today = now.date;
    let weekend = is_weekend(today);
    let highlight = if today.iso_week() == week && !weekend {
        let day = today.weekday().num_days_from_monday();
        Some(
            Rect {
                left: column_left_in(body, day as i64),
                top: body.top,
                width: column_width_in(body),
                height: body.height,
            },
        )
    } else {
        None
    };
    let mut separators: Vec<i64> = Vec::new();
    let mut column: i64 = 1;
    while column < 5
        invariant
            1 <= column <= 5,
            body.is_screen(),
            separators@.len() == column - 1,
            forall|k: int|
                0 <= k < column - 1 ==> #[trigger] separators@[k] == column_left(body, k + 1),
        decreases 5 - column,
    {
        separators.push(column_left_in(body, column));
        column += 1;
    }
    assert(separators@ =~= separators_of(body));
    let bands = bands_in(body, texture);
    let ghost shown = events_view(events@);
    let ghost place = |e: EventView| card_of(e, event_rect(body, e), text_size as int);
    let mut cards: Vec<Card> = Vec::new();
    let mut i: usize = 0;
    proof {
        reveal(Seq::filter);
    }
    while i < events.len()
        invariant
            i <= events.len(),
            body.is_screen(),
            shown == events_view(events@),
            place == |e: EventView| card_of(e, event_rect(body, e), text_size as int),
            cards_view(cards@) == shown.take(i as int).filter(on_weekday()).map_values(place),
        decreases events.len() - i,
    {
        let event = &events[i];
        proof {
            assert(shown.take(i + 1) == shown.take(i as int).push(event@));
            shown.take(i as int).lemma_filter_push(event@, on_weekday());
        }
        if !is_weekend(event.date) {
            let ghost before = cards_view(cards@);
            let rect = event_rect_in(body, event);
            cards.push(card_in(event, rect, text_size));
            assert(shown.take(i as int).filter(on_weekday()).push(event@).map_values(place)
                == before.push(place(event@)));
        }
        i += 1;
    }
    assert(shown.take(events.len() as int) == shown);
    let minute = now.time.minute_of_day();
    let marker = if minute as i64 > AXIS_START as i64 && (minute as i64) < AXIS_END as i64
        && !weekend {
        Some(
            Marker {
                left: body.left,
                right: body.left + body.width,
                y: body.top + scale(minute as i64 - AXIS_START as i64, body.height),
            },
        )
    } else {
        None
    };
    Body { rect: body, highlight, separators, bands, cards, marker }
}

/// The whole table: the header above the body.
#[derive(Debug)]
pub struct Table {
    pub header: Header,
    pub body: Body,
}

/// What a [`Table`] holds.
pub struct TableView {
    pub header: HeaderView,
    pub body: BodyView,
}

impl View for Table {
    type V = TableView;

    open spec fn view(&self) -> TableView {
        TableView { header: self.header@, body: self.body@ }
    }
}

/// What a table that may be absent holds.
pub open spec fn table_view(table: Option<Table>) -> Option<TableView> {
    match table {
        Some(t) => Some(t@),
        None => None,
    }
}

/// The place of the header of a table at `area`: its top
/// [`HEADER_SIZE`] pixels.
pub open spec fn header_rect(area: Rect) -> Rect {
    Rect { left: area.left, top: area.top, width: area.width, height: HEADER_SIZE as i64 }
}

/// The place of the body of a table at `area`: what is left under the
/// header.
pub open spec fn body_rect(area: Rect) -> Rect {
    Rect {
        left: area.left,
        top: (area.top + HEADER_SIZE) as i64,
        width: area.width,
        height: (area.height - HEADER_SIZE) as i64,
    }
}

/// The table at `area` that shows the events `events` of the week `week` at
/// the moment `today`, `time`; `None` where the week has no header.
pub open spec fn table_of(
    area: Rect,
    week: IsoWeek,
    today: Ymd,
    time: Hms,
    events: Seq<EventView>,
    text_size: int,
    texture: Option<TextureSize>,
) -> Option<TableView> {
    match header_of(header_rect(area), week) {
        Some(header) => Some(
            TableView {
                header,
                body: body_of(body_rect(area), week, today, time, events, text_size, texture),
            },
        ),
        None => None,
    }
}

/// The colours of the surroundings that the table is painted in: the text of
/// the header in `fg_stroke`, the body on `bg_fill`, the column of today and
/// the line of the present time in `highlight_color`; the header, the lines
/// between the columns, the break bands and the outline of the line of the
/// present time in the darker ground that [`Theme::dark_bg_fill`] gives.
#[derive(Clone, Copy, Debug, PartialEq, Eq, Structural)]
pub struct Theme {
    pub fg_stroke: Color,
    pub bg_fill: Color,
    pub highlight_color: Color,
}

/// How dark the darker ground is against the ground, in hundredths.
pub const DARK_SHIFT: u32 = 50;

impl Theme {
    /// The darker ground: the ground at half its strength.
    pub fn dark_bg_fill(&self) -> (r: Color)
        ensures
            r == shifted_color(self.bg_fill, DARK_SHIFT as int),
    {
        shift_color(self.bg_fill, DARK_SHIFT)
    }
}

/// The events of one week, to be laid out as a table.
#[derive(Debug)]
pub struct EventsTable<'a> {
    /// The size of the picture that fills the break bands, where there is
    /// one.
    pub break_texture: Option<TextureSize>,
    /// The week shown; the week of the present moment where none is given.
    pub week: Option<IsoWeek>,
    /// The present moment; the moment of the clock where none is given.
    pub now: Option<DateTime>,
    /// The events shown.
    pub events: &'a [Event],
}

impl<'a> EventsTable<'a> {
    /// A table of `events`, with no picture, no week and no moment given.
    pub fn new(events: &'a [Event]) -> (r: Self)
        ensures
            r.break_texture is None,
            r.week is None,
            r.now is None,
            r.events@ == events@,
    {
        EventsTable { break_texture: None, week: None, now: None, events }
    }

    /// The present moment: the one given, or else `clock`.
    pub open spec fn moment(self, clock: DateTime) -> DateTime {
        match self.now {
            Some(now) => now,
            None => clock,
        }
    }

    /// The week shown: the one given, or else the week of the present
    /// moment.
    pub open spec fn shown_week(self, clock: DateTime) -> IsoWeek {
        match self.week {
            Some(week) => week,
            None => self.moment(clock).date@.iso_week(),
        }
    }

    /// The card of `event` at `rect`, with text `text_size` pixels high: as
    /// wide as `rect` but no narrower than six sizes of its text, in the
    /// colour of its category with a border a quarter lighter, titled with
    /// the name of the module where the event has one and else with its
    /// summary, and with its times under the title. No edge and no size of
    /// `rect` may pass sixteen times [`SCREEN`].
    pub fn show_event(&self, event: &Event, rect: Rect, text_size: u32) -> (r: Card)
        requires
            rect.is_within(16 * SCREEN),
        ensures
            r@ == card_of(event@, rect, text_size as int),
    {
        card_in(event, rect, text_size)
    }

    /// The header of the table in `area` for the week `week`; `None` where
    /// the week has no Monday or one of its first five days is out of range.
    /// The day of the first label is a Monday and lies in `week`.
    pub fn show_header(&self, area: Area, week: IsoWeek) -> (r: Option<Header>)
        ensures
            header_view(r) == header_of(area.as_rect(), week),
            r is Some ==> starts_the_week(week.spec_monday(), week),
    {
        header_in(area.rect(), week)
    }

    /// The body of the table in `area` for the week `week` at the moment
    /// `now`, with cards whose text is `text_size` pixels high.
    pub fn show_body(&self, area: Area, week: IsoWeek, now: DateTime, text_size: u32) -> (r: Body)
        ensures
            r@ == body_of(
                area.as_rect(),
                week,
                now.date@,
                now.time@,
                events_view(self.events@),
                text_size as int,
                self.break_texture,
            ),
    {
        body_in(area.rect(), week, now, self.events, text_size, self.break_texture)
    }

    /// The table in `area`: the header in its top [`HEADER_SIZE`] pixels and
    /// the body under it. `clock` is the moment of the clock, used where the
    /// table was given no moment of its own.
    pub fn ui(&self, area: Area, clock: DateTime, text_size: u32) -> (r: Option<Table>)
        ensures
            table_view(r) == table_of(
                area.as_rect(),
                self.shown_week(clock),
                self.moment(clock).date@,
                self.moment(clock).time@,
                events_view(self.events@),
                text_size as int,
                self.break_texture,
            ),
            r is Some ==> starts_the_week(
                self.shown_week(clock).spec_monday(),
                self.shown_week(clock),
            ),
    {
        let now = match self.now {
            Some(now) => now,
            None => clock,
        };
        let week = match self.week {
            Some(week) => week,
            None => now.date.iso_week(),
        };
        let rect = area.rect();
        let header = match header_in(
            Rect { left: rect.left, top: rect.top, width: rect.width, height: HEADER_SIZE as i64 },
            week,
        ) {
            Some(header) => header,
            None => { return None; },
        };
        let body = body_in(
            Rect {
                left: rect.left,
                top: rect.top + HEADER_SIZE as i64,
                width: rect.width,
                height: rect.height - HEADER_SIZE as i64,
            },
            week,
            now,
            self.events,
            text_size,
            self.break_texture,
        );
        Some(Table { header, body })
    }
}

} // verus!
