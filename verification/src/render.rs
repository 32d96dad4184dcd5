//! Layout of the weather screen as a list of drawing operations.
//!
//! [`draw`] decides every text, line and icon and where it goes; the
//! application then rasterizes the list onto any 1-bit draw target (the host
//! PNG canvas or the e-paper buffer), so the identical layout feeds both. The
//! target's own size drives the layout, so rotation handled by the display
//! buffer is transparent here.

use vstd::prelude::*;

use crate::config::{Config, Language};
use crate::text::{
    chars_of, decimal, push_decimal, push_signed_decimal, push_str, signed_decimal,
    string_from_chars,
};
use crate::weather::model::{month_name, weekday_name, weekday_spec, Condition, Date, Day, Forecast};

verus! {

/// Height of the header band; the day cards start just below it.
pub const HEADER_HEIGHT: i32 = 118;

/// The fonts of the screen (u8g2 font names).
#[derive(Debug, Clone, Copy, PartialEq, Eq, Structural)]
pub enum Font {
    /// `u8g2_font_helvB18_tf`: the place name.
    HelvB18,
    /// `u8g2_font_helvR14_tf`: date, current conditions, day temperatures.
    HelvR14,
    /// `u8g2_font_logisoso32_tf`: the current temperature.
    Logisoso32,
    /// `u8g2_font_helvR10_tf`: refresh time and precipitation.
    HelvR10,
    /// `u8g2_font_helvB14_tf`: day labels.
    HelvB14,
}

/// Horizontal alignment of a text about its anchor; texts hang below it.
#[derive(Debug, Clone, Copy, PartialEq, Eq, Structural)]
pub enum Align {
    Left,
    Center,
    Right,
}

/// One drawing operation, in black on white.
#[derive(Debug, Clone, PartialEq)]
pub enum DrawOp {
    /// Fill the whole target with white.
    Clear,
    /// A text hanging below `(x, y)`, aligned about `x`.
    Text { font: Font, text: String, x: i32, y: i32, align: Align },
    /// A straight line of the given stroke width.
    Line { x0: i32, y0: i32, x1: i32, y1: i32, stroke: u32 },
    /// The icon of `condition`, centered on `(x, y)`, fitting a `size` square.
    Icon { condition: Condition, x: i32, y: i32, size: u32 },
}

/// What a drawing operation holds.
pub enum OpView {
    Clear,
    Text { font: Font, text: Seq<char>, x: int, y: int, align: Align },
    Line { x0: int, y0: int, x1: int, y1: int, stroke: int },
    Icon { condition: Condition, x: int, y: int, size: int },
}

impl View for DrawOp {
    type V = OpView;

    open spec fn view(&self) -> OpView {
        match self {
            DrawOp::Clear => OpView::Clear,
            DrawOp::Text { font, text, x, y, align } => OpView::Text {
                font: *font,
                text: text@,
                x: *x as int,
                y: *y as int,
                align: *align,
            },
            DrawOp::Line { x0, y0, x1, y1, stroke } => OpView::Line {
                x0: *x0 as int,
                y0: *y0 as int,
                x1: *x1 as int,
                y1: *y1 as int,
                stroke: *stroke as int,
            },
            DrawOp::Icon { condition, x, y, size } => OpView::Icon {
                condition: *condition,
                x: *x as int,
                y: *y as int,
                size: *size as int,
            },
        }
    }
}

/// The vertical placement of a day card's parts, measured from the card's
/// top, and its icon size. They are fractions of the card (the icon centre at
/// 0.42 of its height, the temperatures at 0.72, the probability at 0.85, the
/// icon half the column width), computed in floating point by the caller from
/// [`card_geometry`].
#[derive(Debug, Clone, Copy, PartialEq, Eq)]
pub struct CardMetrics {
    pub icon_size: u32,
    pub icon_dy: i32,
    pub temps_dy: i32,
    pub rain_dy: i32,
}

// --- Texts ---------------------------------------------------------------------

/// `{:.0}` of `milli / 1000`: rounded to the nearest integer, halves to even,
/// with a minus sign for any negative value (also one that rounds to 0).
pub open spec fn rounded_text(milli: int) -> Seq<char> {
    let a: int = if milli < 0 {
        -milli
    } else {
        milli
    };
    let q = a / 1000;
    let r = a % 1000;
    let n: int = if r > 500 || (r == 500 && q % 2 == 1) {
        q + 1
    } else {
        q
    };
    if milli < 0 {
        seq!['-'] + decimal(n as nat)
    } else {
        decimal(n as nat)
    }
}

fn push_rounded(out: &mut Vec<char>, milli: i64)
    ensures
        final(out)@ == old(out)@ + rounded_text(milli as int),
{
    let a: u64 = if milli == i64::MIN {
        0x8000_0000_0000_0000
    } else if milli < 0 {
        (0 - milli) as u64
    } else {
        milli as u64
    };
    let q = a / 1000;
    let r = a % 1000;
    let n = if r > 500 || (r == 500 && q % 2 == 1) {
        q + 1
    } else {
        q
    };
    if milli < 0 {
        out.push('-');
        push_decimal(out, n);
        assert(out@ =~= old(out)@ + rounded_text(milli as int));
    } else {
        push_decimal(out, n);
    }
}

/// The header's date line, e.g. "Wed, 17 Jun 2026".
pub open spec fn date_line(d: Date, lang: Language) -> Seq<char> {
    weekday_name(lang, weekday_spec(d)) + ", "@ + decimal(d.day as nat) + seq![' '] + month_name(
        lang,
        d.month as int,
    ) + seq![' '] + signed_decimal(d.year as int)
}

/// The header's current-conditions line, e.g. "Now: Partly cloudy".
pub open spec fn now_line(c: Condition, lang: Language) -> Seq<char> {
    lang.now_prefix_spec() + seq![' '] + c.label_spec(lang)
}

/// The header's temperature, e.g. "21°C".
pub open spec fn temp_line(f: Forecast) -> Seq<char> {
    rounded_text(f.current.temperature as int) + f.temperature_symbol@
}

/// The header's refresh line, e.g. "Refreshed 17.06 22:05".
pub open spec fn refreshed_line(f: Forecast, lang: Language) -> Seq<char> {
    lang.refreshed_prefix_spec() + seq![' '] + f.refreshed_at@
}

/// A card's label, e.g. "Wed 17".
pub open spec fn card_label(d: Date, lang: Language) -> Seq<char> {
    weekday_name(lang, weekday_spec(d)) + seq![' '] + decimal(d.day as nat)
}

/// A card's temperatures, e.g. "25° / 14°".
pub open spec fn card_temps(day: Day) -> Seq<char> {
    rounded_text(day.temp_max as int) + "° / "@ + rounded_text(day.temp_min as int) + seq!['°']
}

/// A card's precipitation probability, e.g. "80%".
pub open spec fn card_rain(p: u8) -> Seq<char> {
    decimal(p as nat) + seq!['%']
}

fn date_line_exec(d: Date, lang: Language) -> (r: String)
    requires
        1 <= d.month <= 12,
    ensures
        r@ == date_line(d, lang),
{
    let mut out: Vec<char> = Vec::new();
    push_str(&mut out, d.weekday_short(lang));
    push_str(&mut out, ", ");
    push_decimal(&mut out, d.day as u64);
    out.push(' ');
    push_str(&mut out, d.month_short(lang));
    out.push(' ');
    push_signed_decimal(&mut out, d.year as i64);
    assert(out@ =~= date_line(d, lang));
    string_from_chars(out)
}

fn join_space(a: &str, b: &str) -> (r: String)
    ensures
        r@ == a@ + seq![' '] + b@,
{
    let mut out = chars_of(a);
    out.push(' ');
    push_str(&mut out, b);
    string_from_chars(out)
}

fn temp_line_exec(f: &Forecast) -> (r: String)
    ensures
        r@ == temp_line(*f),
{
    let mut out: Vec<char> = Vec::new();
    push_rounded(&mut out, f.current.temperature);
    push_str(&mut out, f.temperature_symbol);
    assert(out@ =~= temp_line(*f));
    string_from_chars(out)
}

fn card_label_exec(d: Date, lang: Language) -> (r: String)
    requires
        1 <= d.month <= 12,
    ensures
        r@ == card_label(d, lang),
{
    let mut out: Vec<char> = Vec::new();
    push_str(&mut out, d.weekday_short(lang));
    out.push(' ');
    push_decimal(&mut out, d.day as u64);
    assert(out@ =~= card_label(d, lang));
    string_from_chars(out)
}

fn card_temps_exec(day: &Day) -> (r: String)
    ensures
        r@ == card_temps(*day),
{
    let mut out: Vec<char> = Vec::new();
    push_rounded(&mut out, day.temp_max);
    push_str(&mut out, "° / ");
    push_rounded(&mut out, day.temp_min);
    out.push('°');
    assert(out@ =~= card_temps(*day));
    string_from_chars(out)
}

fn card_rain_exec(p: u8) -> (r: String)
    ensures
        r@ == card_rain(p),
{
    let mut out: Vec<char> = Vec::new();
    push_decimal(&mut out, p as u64);
    out.push('%');
    string_from_chars(out)
}

// --- Layout -------------------------------------------------------------------

/// The header: place, date of the first day, current condition (left column);
/// current temperature right-aligned, a large icon to its left, and the
/// refresh time below.
pub open spec fn header_ops(f: Forecast, lang: Language, width: int) -> Seq<OpView> {
    seq![OpView::Text { font: Font::HelvB18, text: f.location_name@, x: 16, y: 12, align: Align::Left }]
        + (if f.days@.len() > 0 {
        seq![
            OpView::Text {
                font: Font::HelvR14,
                text: date_line(f.days@[0].date, lang),
                x: 16,
                y: 48,
                align: Align::Left,
            },
        ]
    } else {
        seq![]
    }) + seq![
        OpView::Text {
            font: Font::HelvR14,
            text: now_line(f.current.condition, lang),
            x: 16,
            y: 76,
            align: Align::Left,
        },
        OpView::Text {
            font: Font::Logisoso32,
            text: temp_line(f),
            x: width - 16,
            y: 14,
            align: Align::Right,
        },
        OpView::Icon { condition: f.current.condition, x: width - 220, y: 56, size: 84 },
        OpView::Text {
            font: Font::HelvR10,
            text: refreshed_line(f, lang),
            x: width - 16,
            y: 96,
            align: Align::Right,
        },
    ]
}

/// Column width and card height for `n` day cards on a `width` × `height`
/// target.
pub open spec fn card_geometry_spec(width: int, height: int, n: int) -> (int, int) {
    (width / n, height - (HEADER_HEIGHT + 1))
}

/// Column width and card height for `days` day cards on a `width` × `height`
/// target (the metrics of each card are fractions of these).
pub fn card_geometry(width: u32, height: u32, days: usize) -> (r: (i32, i32))
    requires
        width <= i32::MAX,
        height <= i32::MAX,
        0 < days <= i32::MAX,
    ensures
        r.0 == card_geometry_spec(width as int, height as int, days as int).0,
        r.1 == card_geometry_spec(width as int, height as int, days as int).1,
{
    ((width as i32) / (days as i32), (height as i32) - (HEADER_HEIGHT + 1))
}

/// The card of day `i`: a divider on its left (except for the first card), the
/// weekday and date, the icon, the temperatures and, when known, the
/// precipitation probability, all centered in the column.
pub open spec fn card_ops(day: Day, i: int, lang: Language, col_w: int, height: int, m: CardMetrics) -> Seq<OpView> {
    let top = HEADER_HEIGHT + 1;
    let x0 = i * col_w;
    let cx = x0 + col_w / 2;
    (if i > 0 {
        seq![OpView::Line { x0: x0, y0: top + 10, x1: x0, y1: height - 10, stroke: 1 }]
    } else {
        seq![]
    }) + seq![
        OpView::Text { font: Font::HelvB14, text: card_label(day.date, lang), x: cx, y: top + 14, align: Align::Center },
        OpView::Icon { condition: day.condition, x: cx, y: top + m.icon_dy, size: m.icon_size as int },
        OpView::Text { font: Font::HelvR14, text: card_temps(day), x: cx, y: top + m.temps_dy, align: Align::Center },
    ] + match day.precip_prob {
        Some(p) => seq![OpView::Text { font: Font::HelvR10, text: card_rain(p), x: cx, y: top + m.rain_dy, align: Align::Center }],
        None => seq![],
    }
}

/// The cards of the first `k` days.
pub open spec fn cards_ops(days: Seq<Day>, k: int, lang: Language, col_w: int, height: int, m: CardMetrics) -> Seq<OpView>
    decreases k,
{
    if k <= 0 {
        seq![]
    } else {
        cards_ops(days, k - 1, lang, col_w, height, m) + card_ops(days[k - 1], k - 1, lang, col_w, height, m)
    }
}

/// The whole screen: cleared to white, the header, a rule under it, then one
/// card per day side by side.
pub open spec fn screen_ops(f: Forecast, lang: Language, width: int, height: int, m: CardMetrics) -> Seq<OpView> {
    let n = f.days@.len() as int;
    seq![OpView::Clear] + header_ops(f, lang, width) + seq![
        OpView::Line { x0: 0, y0: HEADER_HEIGHT as int, x1: width, y1: HEADER_HEIGHT as int, stroke: 2 },
    ] + if n == 0 {
        seq![]
    } else {
        cards_ops(f.days@, n, lang, width / n, height, m)
    }
}

proof fn lemma_card_in_cards(
    days: Seq<Day>,
    k: int,
    i: int,
    j: int,
    lang: Language,
    col_w: int,
    height: int,
    m: CardMetrics,
)
    requires
        0 <= i < k <= days.len(),
        0 <= j < card_ops(days[i], i, lang, col_w, height, m).len(),
    ensures
        cards_ops(days, k, lang, col_w, height, m).contains(card_ops(days[i], i, lang, col_w, height, m)[j]),
    decreases k,
{
    let prev = cards_ops(days, k - 1, lang, col_w, height, m);
    let last = card_ops(days[k - 1], k - 1, lang, col_w, height, m);
    let all = cards_ops(days, k, lang, col_w, height, m);
    assert(all == prev + last);
    if i < k - 1 {
        lemma_card_in_cards(days, k - 1, i, j, lang, col_w, height, m);
        let idx = choose|idx: int| 0 <= idx < prev.len() && prev[idx] == card_ops(days[i], i, lang, col_w, height, m)[j];
        assert(all[idx] == prev[idx]);
    } else {
        assert(all[prev.len() + j] == last[j]);
    }
}

/// Every day gets its card, in its own column of `width / n` pixels (`n`
/// days): centred in the column, the day's label, the icon of its condition,
/// its maximum and minimum temperatures as "max° / min°" and, when the day
/// has one, its precipitation probability as "p%".
pub proof fn law_every_day_gets_its_card(
    f: Forecast,
    lang: Language,
    width: int,
    height: int,
    m: CardMetrics,
    i: int,
)
    requires
        0 <= i < f.days@.len(),
    ensures
        ({
            let n = f.days@.len() as int;
            let col_w = width / n;
            let cx = i * col_w + col_w / 2;
            let top = HEADER_HEIGHT + 1;
            let day = f.days@[i];
            let ops = screen_ops(f, lang, width, height, m);
            &&& ops.contains(
                OpView::Text { font: Font::HelvB14, text: weekday_name(lang, weekday_spec(day.date)) + seq![' '] + decimal(day.date.day as nat), x: cx, y: top + 14, align: Align::Center },
            )
            &&& ops.contains(OpView::Icon { condition: day.condition, x: cx, y: top + m.icon_dy, size: m.icon_size as int })
            &&& ops.contains(
                OpView::Text {
                    font: Font::HelvR14,
                    text: rounded_text(day.temp_max as int) + "° / "@ + rounded_text(day.temp_min as int) + seq!['°'],
                    x: cx,
                    y: top + m.temps_dy,
                    align: Align::Center,
                },
            )
            &&& (day.precip_prob matches Some(p) ==> ops.contains(
                OpView::Text { font: Font::HelvR10, text: decimal(p as nat) + seq!['%'], x: cx, y: top + m.rain_dy, align: Align::Center },
            ))
        }),
{
    let n = f.days@.len() as int;
    let col_w = width / n;
    let card = card_ops(f.days@[i], i, lang, col_w, height, m);
    let cards = cards_ops(f.days@, n, lang, col_w, height, m);
    let head = seq![OpView::Clear] + header_ops(f, lang, width) + seq![
        OpView::Line { x0: 0, y0: HEADER_HEIGHT as int, x1: width, y1: HEADER_HEIGHT as int, stroke: 2 },
    ];
    let ops = screen_ops(f, lang, width, height, m);
    assert(ops == head + cards);
    let off: int = if i > 0 { 1 } else { 0 };
    assert forall|j: int| 0 <= j < card.len() implies ops.contains(#[trigger] card[j]) by {
        lemma_card_in_cards(f.days@, n, i, j, lang, col_w, height, m);
        let idx = choose|idx: int| 0 <= idx < cards.len() && cards[idx] == card[j];
        assert(ops[head.len() + idx] == cards[idx]);
    }
    assert(ops.contains(card[off]));
    assert(ops.contains(card[off + 1]));
    assert(ops.contains(card[off + 2]));
    if f.days@[i].precip_prob is Some {
        assert(ops.contains(card[off + 3]));
    }
}

/// Every day of the forecast has a month of 1 to 12 (so it has names).
pub open spec fn days_named(days: Seq<Day>) -> bool {
    forall|i: int| 0 <= i < days.len() ==> 1 <= #[trigger] days[i].date.month <= 12
}

/// The card metrics keep every card position within the `i32` range.
pub open spec fn metrics_fit(m: CardMetrics) -> bool {
    &&& HEADER_HEIGHT + 1 + m.icon_dy <= i32::MAX
    &&& HEADER_HEIGHT + 1 + m.temps_dy <= i32::MAX
    &&& HEADER_HEIGHT + 1 + m.rain_dy <= i32::MAX
}

/// What a list of operations holds.
pub open spec fn view_ops(ops: Seq<DrawOp>) -> Seq<OpView> {
    ops.map_values(|o: DrawOp| o@)
}

fn push_op(ops: &mut Vec<DrawOp>, op: DrawOp)
    ensures
        view_ops(final(ops)@) == view_ops(old(ops)@).push(op@),
{
    ops.push(op);
    assert(view_ops(ops@) =~= view_ops(old(ops)@).push(op@));
}

fn push_header(ops: &mut Vec<DrawOp>, f: &Forecast, lang: Language, width: i32)
    requires
        width >= 0,
        days_named(f.days@),
    ensures
        view_ops(final(ops)@) == view_ops(old(ops)@) + header_ops(*f, lang, width as int),
{
    let ghost start = view_ops(ops@);
    push_op(ops, DrawOp::Text { font: Font::HelvB18, text: f.location_name.clone(), x: 16, y: 12, align: Align::Left });
    if f.days.len() > 0 {
        let d = f.days[0].date;
        push_op(ops, DrawOp::Text { font: Font::HelvR14, text: date_line_exec(d, lang), x: 16, y: 48, align: Align::Left });
    }
    let now = join_space(lang.now_prefix(), f.current.condition.label(lang));
    push_op(ops, DrawOp::Text { font: Font::HelvR14, text: now, x: 16, y: 76, align: Align::Left });
    push_op(ops, DrawOp::Text { font: Font::Logisoso32, text: temp_line_exec(f), x: width - 16, y: 14, align: Align::Right });
    push_op(ops, DrawOp::Icon { condition: f.current.condition, x: width - 220, y: 56, size: 84 });
    let refreshed = join_space(lang.refreshed_prefix(), f.refreshed_at.as_str());
    push_op(ops, DrawOp::Text { font: Font::HelvR10, text: refreshed, x: width - 16, y: 96, align: Align::Right });
    assert(view_ops(ops@) =~= start + header_ops(*f, lang, width as int));
}

fn push_card(ops: &mut Vec<DrawOp>, day: &Day, i: i32, lang: Language, col_w: i32, width: i32, height: i32, m: CardMetrics)
    requires
        0 <= i,
        0 <= col_w,
        0 <= width,
        0 <= height,
        i * col_w + col_w <= width,
        1 <= day.date.month <= 12,
        metrics_fit(m),
    ensures
        view_ops(final(ops)@) == view_ops(old(ops)@) + card_ops(*day, i as int, lang, col_w as int, height as int, m),
{
    let ghost start = view_ops(ops@);
    let top = HEADER_HEIGHT + 1;
    let x0 = i * col_w;
    let cx = x0 + col_w / 2;
    if i > 0 {
        push_op(ops, DrawOp::Line { x0, y0: top + 10, x1: x0, y1: height - 10, stroke: 1 });
    }
    push_op(ops, DrawOp::Text { font: Font::HelvB14, text: card_label_exec(day.date, lang), x: cx, y: top + 14, align: Align::Center });
    push_op(ops, DrawOp::Icon { condition: day.condition, x: cx, y: top + m.icon_dy, size: m.icon_size });
    push_op(ops, DrawOp::Text { font: Font::HelvR14, text: card_temps_exec(day), x: cx, y: top + m.temps_dy, align: Align::Center });
    if let Some(p) = day.precip_prob {
        push_op(ops, DrawOp::Text { font: Font::HelvR10, text: card_rain_exec(p), x: cx, y: top + m.rain_dy, align: Align::Center });
    }
    assert(view_ops(ops@) =~= start + card_ops(*day, i as int, lang, col_w as int, height as int, m));
}

/// Render the full forecast as drawing operations for a `width` × `height`
/// target.
#[verifier::rlimit(40)]
pub fn draw(forecast: &Forecast, config: &Config, width: u32, height: u32, metrics: CardMetrics) -> (ops: Vec<DrawOp>)
    requires
        width <= i32::MAX,
        height <= i32::MAX,
        forecast.days@.len() <= i32::MAX,
        days_named(forecast.days@),
        metrics_fit(metrics),
    ensures
        view_ops(ops@) == screen_ops(*forecast, config.language, width as int, height as int, metrics),
{
    let lang = config.language;
    let w = width as i32;
    let h = height as i32;
    let mut ops: Vec<DrawOp> = Vec::new();
    push_op(&mut ops, DrawOp::Clear);
    push_header(&mut ops, forecast, lang, w);
    push_op(&mut ops, DrawOp::Line { x0: 0, y0: HEADER_HEIGHT, x1: w, y1: HEADER_HEIGHT, stroke: 2 });
    let ghost prefix = view_ops(ops@);
    let n = forecast.days.len();
    if n == 0 {
        assert(view_ops(ops@) =~= screen_ops(*forecast, lang, width as int, height as int, metrics));
        return ops;
    }
    let col_w = w / (n as i32);
    for i in 0..n
        invariant
            n == forecast.days@.len(),
            0 < n <= i32::MAX,
            0 <= w,
            0 <= h,
            col_w == (w as int) / (n as int),
            days_named(forecast.days@),
            metrics_fit(metrics),
            view_ops(ops@) == prefix + cards_ops(forecast.days@, i as int, lang, col_w as int, h as int, metrics),
    {
        assert((i as int) * (col_w as int) + col_w <= w) by (nonlinear_arith)
            requires
                0 <= i < n,
                0 <= w,
                col_w == (w as int) / (n as int),
                n > 0,
        ;
        assert(1 <= forecast.days@[i as int].date.month <= 12);
        push_card(&mut ops, &forecast.days[i], i as i32, lang, col_w, w, h, metrics);
    }
    assert(view_ops(ops@) =~= screen_ops(*forecast, lang, width as int, height as int, metrics));
    ops
}

/// Every screen starts by clearing the whole target to white, so what was on
/// the target before leaves no trace: the picture is a function of the
/// forecast, the language, the target size and the card metrics alone, and
/// drawing the same screen twice gives the picture of drawing it once.
pub proof fn law_screen_starts_cleared(f: Forecast, lang: Language, width: int, height: int, m: CardMetrics)
    ensures
        screen_ops(f, lang, width, height, m).len() >= 1,
        screen_ops(f, lang, width, height, m)[0] is Clear,
{
}

} // verus!
