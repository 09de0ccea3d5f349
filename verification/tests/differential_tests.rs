use latency_proxy::delay_header::parse_delay_ms;
use latency_proxy::location_header::parse_location;
use latency_proxy::location_header::trim;

fn for_each_string(alphabet: &[u8], max_len: usize, mut visit: impl FnMut(&str)) -> usize {
    let mut count = 0;
    let mut text: Vec<u8> = Vec::new();
    for len in 0..=max_len {
        let mut index = vec![0usize; len];
        loop {
            text.clear();
            for i in 0..len {
                text.push(alphabet[index[i]]);
            }
            visit(std::str::from_utf8(&text).unwrap());
            count += 1;
            let mut place = 0;
            while place < len {
                index[place] += 1;
                if index[place] < alphabet.len() {
                    break;
                }
                index[place] = 0;
                place += 1;
            }
            if place == len {
                break;
            }
        }
    }
    count
}

fn coordinates_by_the_standard_library(value: &str) -> Option<(f64, f64)> {
    if value.trim().split(';').count() != 2 {
        return None;
    }
    let parts: Vec<&str> = value.split(';').collect();
    let latitude = parts[0].trim().parse::<f64>().ok()?;
    let longitude = parts[1].trim().parse::<f64>().ok()?;
    Some((latitude, longitude))
}

#[test]
fn delay_values_agree_with_the_standard_parser_on_short_strings() {
    let count = for_each_string(b"0129+- .", 5, |text| {
        assert_eq!(parse_delay_ms(text.as_bytes()), text.parse::<u64>().ok(), "{:?}", text);
    });
    assert_eq!(count, 1 + 8 + 64 + 512 + 4096 + 32768);
}

#[test]
fn delay_values_agree_with_the_standard_parser_near_the_limit() {
    for last in 0u8..=9 {
        for extra in ["", "0", "9"] {
            for sign in ["", "+"] {
                let text = format!("{}1844674407370955161{}{}", sign, last, extra);
                assert_eq!(parse_delay_ms(text.as_bytes()), text.parse::<u64>().ok(), "{:?}", text);
            }
        }
    }
}

#[test]
fn trim_agrees_with_the_standard_trim_on_short_header_text() {
    let count = for_each_string(b" \ta;1", 6, |text| {
        assert_eq!(trim(text.as_bytes()), text.trim().as_bytes(), "{:?}", text);
    });
    assert_eq!(count, 1 + 5 + 25 + 125 + 625 + 3125 + 15625);
}

#[test]
fn locations_agree_with_splitting_trimming_and_parsing_by_the_standard_library() {
    let count = for_each_string(b"1;. \te-", 6, |text| {
        let expected = coordinates_by_the_standard_library(text);
        let found = parse_location(text.as_bytes()).map(|fields| {
            let latitude: f64 = String::from_utf8(fields.latitude).unwrap().parse().unwrap();
            let longitude: f64 = String::from_utf8(fields.longitude).unwrap().parse().unwrap();
            (latitude, longitude)
        });
        assert_eq!(found, expected, "{:?}", text);
    });
    assert_eq!(count, 1 + 7 + 49 + 343 + 2401 + 16807 + 117649);
}

#[test]
fn locations_agree_on_values_as_clients_send_them() {
    let samples: Vec<&str> = vec![
        "39.9526;-75.1652", " 39.9526 ; -75.1652 ", "40.7128;-74.0060", "37.7749;-122.4194",
        "39.9526; -75.1652;", ";39.9526;-75.1652", "39.9526 -75.1652", "39.9526;;-75.1652",
        "39.9526;-75.1652 ", "\t39.9526;-75.1652", "39.9526;-75.1652\t", "+39.9526;+75.1652",
        "39.9526N;75.1652W", "3.99526e1;-7.51652e1", "inf;nan", "Infinity;-Infinity", "0;0",
        "-0;-0", "90;180", "-90;-180", "1e309;0", "0;1e-400", "1_0;2", "1,5;2,5", "0x1p3;1",
    ];
    for text in samples {
        let expected = coordinates_by_the_standard_library(text);
        let found = parse_location(text.as_bytes()).map(|fields| {
            let latitude: f64 = String::from_utf8(fields.latitude).unwrap().parse().unwrap();
            let longitude: f64 = String::from_utf8(fields.longitude).unwrap().parse().unwrap();
            (latitude, longitude)
        });
        match (found, expected) {
            (Some(a), Some(b)) => {
                assert_eq!(a.0.to_bits(), b.0.to_bits(), "{:?}", text);
                assert_eq!(a.1.to_bits(), b.1.to_bits(), "{:?}", text);
            }
            (None, None) => {}
            (a, b) => panic!("{:?}: {:?} is not {:?}", text, a, b),
        }
    }
}
