use eink::config::{Config, Display, Language, Location, Refresh, Units, WeatherProvider};
use eink::render::{card_geometry, draw, Align, CardMetrics, DrawOp, Font};
use eink::weather::model::{Condition, Current, Date, Day, Forecast};

fn forecast(days: Vec<Day>, temperature: i64) -> Forecast {
    Forecast {
        location_name: "Zagreb, Croatia".to_string(),
        current: Current { temperature, condition: Condition::PartlyCloudy },
        days,
        temperature_symbol: "°C",
        refreshed_at: "Wed 17 Jun 22:05".to_string(),
    }
}

fn render_config(language: Language) -> Config {
    Config {
        location: Location { city: "Zagreb".to_string(), country: None },
        provider: WeatherProvider::OpenMeteo,
        language,
        units: Units::default(),
        display: Display::default(),
        refresh: Refresh::default(),
    }
}

fn day(d: u32, max: i64, min: i64, p: Option<u8>) -> Day {
    Day {
        date: Date { year: 2026, month: 6, day: d },
        temp_max: max,
        temp_min: min,
        precip_prob: p,
        condition: Condition::Rain,
    }
}

fn text(font: Font, s: &str, x: i32, y: i32, align: Align) -> DrawOp {
    DrawOp::Text { font, text: s.to_string(), x, y, align }
}

const METRICS: CardMetrics = CardMetrics { icon_size: 57, icon_dy: 151, temps_dy: 259, rain_dy: 306 };

#[test]
fn lays_out_header_and_cards() {
    let f = forecast(vec![day(17, 25_100, 14_200, Some(10)), day(18, 22_500, -400, None)], 21_400);
    let ops = draw(&f, &render_config(Language::En), 800, 480, METRICS);
    let expected = vec![
        DrawOp::Clear,
        text(Font::HelvB18, "Zagreb, Croatia", 16, 12, Align::Left),
        text(Font::HelvR14, "Wed, 17 Jun 2026", 16, 48, Align::Left),
        text(Font::HelvR14, "Now: Partly cloudy", 16, 76, Align::Left),
        text(Font::Logisoso32, "21°C", 784, 14, Align::Right),
        DrawOp::Icon { condition: Condition::PartlyCloudy, x: 580, y: 56, size: 84 },
        text(Font::HelvR10, "Refreshed Wed 17 Jun 22:05", 784, 96, Align::Right),
        DrawOp::Line { x0: 0, y0: 118, x1: 800, y1: 118, stroke: 2 },
        text(Font::HelvB14, "Wed 17", 200, 133, Align::Center),
        DrawOp::Icon { condition: Condition::Rain, x: 200, y: 270, size: 57 },
        text(Font::HelvR14, "25° / 14°", 200, 378, Align::Center),
        text(Font::HelvR10, "10%", 200, 425, Align::Center),
        DrawOp::Line { x0: 400, y0: 129, x1: 400, y1: 470, stroke: 1 },
        text(Font::HelvB14, "Thu 18", 600, 133, Align::Center),
        DrawOp::Icon { condition: Condition::Rain, x: 600, y: 270, size: 57 },
        text(Font::HelvR14, "22° / -0°", 600, 378, Align::Center),
    ];
    assert_eq!(ops, expected);
}

#[test]
fn header_in_croatian_without_days() {
    let f = forecast(vec![], -2_500);
    let ops = draw(&f, &render_config(Language::Hr), 480, 800, METRICS);
    assert_eq!(ops.len(), 7);
    assert_eq!(ops[2], text(Font::HelvR14, "Sada: Djelomicno oblacno", 16, 76, Align::Left));
    assert_eq!(ops[3], text(Font::Logisoso32, "-2°C", 464, 14, Align::Right));
    assert_eq!(ops[5], text(Font::HelvR10, "Osvjezeno Wed 17 Jun 22:05", 464, 96, Align::Right));
}

#[test]
fn rounds_temperatures_half_to_even() {
    let f = forecast(vec![day(17, 2_500, 3_500, None)], 500);
    let ops = draw(&f, &render_config(Language::En), 800, 480, METRICS);
    assert_eq!(ops[4], text(Font::Logisoso32, "0°C", 784, 14, Align::Right));
    assert_eq!(ops[10], text(Font::HelvR14, "2° / 4°", 400, 378, Align::Center));
}

#[test]
fn splits_columns_evenly() {
    assert_eq!(card_geometry(800, 480, 7), (114, 361));
    assert_eq!(card_geometry(480, 800, 3), (160, 681));
}
