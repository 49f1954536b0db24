use regex::Regex;
use today_i_ran::parse::{parse_distance, parse_duration, resolve_unit, ParseError};
use today_i_ran::quantity::{Duration, Length, TimeUnit};

const SAMPLES: [&str; 40] = [
    "",
    " ",
    "10km",
    "5.2 mi",
    "800",
    "800 ",
    "42.195 Kilometers",
    "about 10 km today",
    ".5km",
    "5.km",
    "1.2.3km",
    "10 k m",
    "10\t\n yd",
    "3feet",
    "3 feet long",
    "0.0000019 m",
    "000123.4500 m",
    "12.345s",
    "1h 5min 30s",
    "1h5min30s",
    "  1 h  5 min  30 sec ",
    "45s",
    "45sec",
    "90min",
    "2h 30s",
    "2h30min",
    "1h 30",
    "30s 1h",
    "5min and more",
    "5m",
    "h min s",
    "abc",
    "12",
    "1.5h",
    "1.h",
    "0.5min 0.5s",
    "7 mi",
    "7 min",
    "3.s",
    "10 smoots",
];

fn millionths(numeral: &str) -> Option<u64> {
    let (whole, fraction) = match numeral.split_once('.') {
        Some((w, f)) => (w, f),
        None => (numeral, ""),
    };
    let mut places = String::from(fraction);
    places.truncate(6);
    while places.len() < 6 {
        places.push('0');
    }
    format!("{}{}", whole, places).parse().ok()
}

#[test]
fn distance_agrees_with_its_pattern() {
    let pattern = Regex::new(r"(?P<value>\d+(\.\d*)?)\s*(?P<unit>[[:alpha:]]*)").unwrap();
    for text in SAMPLES {
        let expected = match pattern.captures(text) {
            None => Err(ParseError::NoMatch),
            Some(found) => match millionths(&found["value"]) {
                None => Err(ParseError::BadNumber),
                Some(value) => match resolve_unit(&found["unit"]) {
                    None => Err(ParseError::BadUnit),
                    Some(unit) => Length::new(value, unit).ok_or(ParseError::BadNumber),
                },
            },
        };
        assert_eq!(parse_distance(text), expected, "{:?}", text);
    }
}

#[test]
fn time_agrees_with_its_pattern() {
    let pattern = Regex::new(
        r"^\s*((?P<hours>\d+(\.\d*)?)\s*h)?\s*((?P<minutes>\d+(\.\d*)?)\s*min)?\s*((?P<seconds>\d+(\.\d*)?)\s*(sec|s))?",
    )
    .unwrap();
    for text in SAMPLES {
        let found = pattern.captures(text).unwrap();
        let groups = [
            (found.name("hours"), TimeUnit::Hour),
            (found.name("minutes"), TimeUnit::Minute),
            (found.name("seconds"), TimeUnit::Second),
        ];
        let expected = if groups.iter().all(|(g, _)| g.is_none()) {
            Err(ParseError::Empty)
        } else {
            let mut sum = Some(Duration { micros: 0 });
            for (group, unit) in groups {
                if let Some(numeral) = group {
                    let part = millionths(numeral.as_str()).and_then(|v| Duration::new(v, unit));
                    sum = match (sum, part) {
                        (Some(a), Some(b)) => a.checked_add(b),
                        _ => None,
                    };
                }
            }
            sum.ok_or(ParseError::BadNumber)
        };
        assert_eq!(parse_duration(text), expected, "{:?}", text);
    }
}
