use latency_proxy::number_text::is_exponent;
use latency_proxy::number_text::is_number_text;
use latency_proxy::number_text::is_special_word;
use latency_proxy::number_text::is_unsigned_number;
use latency_proxy::number_text::lower_case;

#[test]
fn lower_case_changes_upper_case_letters_only() {
    assert_eq!(lower_case(b'A'), b'a');
    assert_eq!(lower_case(b'Z'), b'z');
    assert_eq!(lower_case(b'E'), b'e');
    assert_eq!(lower_case(b'e'), b'e');
    assert_eq!(lower_case(b'@'), b'@');
    assert_eq!(lower_case(b'['), b'[');
    assert_eq!(lower_case(b'5'), b'5');
    assert_eq!(lower_case(0xff), 0xff);
    for b in 0u8..=255 {
        assert_eq!(lower_case(b), b.to_ascii_lowercase());
    }
}

#[test]
fn special_words_in_any_case() {
    for word in ["inf", "INF", "Inf", "infinity", "Infinity", "INFINITY", "nan", "NaN", "NAN"] {
        assert!(is_special_word(word.as_bytes()), "{:?}", word);
    }
    for word in ["", "in", "infinit", "infinityy", "nana", "na", "ind", "nam", "+inf", "inf "] {
        assert!(!is_special_word(word.as_bytes()), "{:?}", word);
    }
}

#[test]
fn exponent_needs_a_digit() {
    assert!(is_exponent(b"1"));
    assert!(is_exponent(b"+1"));
    assert!(is_exponent(b"-12"));
    assert!(is_exponent(b"007"));
    assert!(!is_exponent(b""));
    assert!(!is_exponent(b"+"));
    assert!(!is_exponent(b"-"));
    assert!(!is_exponent(b"1.0"));
    assert!(!is_exponent(b"--1"));
    assert!(!is_exponent(b"1e1"));
}

#[test]
fn unsigned_numbers() {
    for text in ["0", "40", "40.", ".5", "40.7128", "1e5", "1E5", "1.e5", ".5e-3", "1.5E+10"] {
        assert!(is_unsigned_number(text.as_bytes()), "{:?}", text);
    }
    for text in ["", ".", "e5", ".e5", "1e", "1e+", "1..2", "1.2.3", "+1", "-1", "1 ", " 1", "1f"] {
        assert!(!is_unsigned_number(text.as_bytes()), "{:?}", text);
    }
}

#[test]
fn coordinates_as_they_are_usually_written() {
    for text in ["39.9526", "-75.1652", "37.7749", "-122.4194", "40.7128", "-74.0060", "0", "-0.0"] {
        assert!(is_number_text(text.as_bytes()), "{:?}", text);
    }
}

#[test]
fn number_text_is_what_the_standard_float_parser_reads() {
    let samples: Vec<&str> = vec![
        "", " ", "+", "-", ".", "+.", "-.", "e", "E", "e1", "+e1", ".e1", "0", "-0", "+0", "00",
        "1", "12", "1.", ".1", "1.1", "+1.1", "-1.1", "++1", "--1", "+-1", "1+", "1-", "1e1",
        "1E1", "1e+1", "1e-1", "1e", "1e+", "1e-", "1e1.0", "1e1e1", "1.e1", ".1e1", ".e", "1..",
        "..1", "1.1.1", "1,1", "1_000", "1 000", " 1", "1 ", "\t1", "1\t", "0x10", "0b1", "1f64",
        "1.0f32", "inf", "Inf", "INF", "+inf", "-inf", "infinity", "Infinity", "-INFINITY",
        "+infinity", "infinit", "infinityx", "in", "i", "nan", "NaN", "NAN", "+nan", "-NaN", "na",
        "nane", "inff", "infnan", "39.9526", "-75.1652", "4.07128e1", "-7.4006E+1", "1e400",
        "1e-400", "123456789012345678901234567890", "0.000000000000000000000000000001",
        "179769313486231570000000000000000000000000000000000000000000000000000000000000000000",
        "1e99999999999999999999", "-.5e-0", "5.", "5.e", "5.e+", "5.e+0", "e+0", "+.5", "+5.",
        "north", "39.9526N", "\u{661}", "1\u{a0}", "\u{663}\u{669}", "1e\u{663}",
    ];
    for text in samples {
        assert_eq!(
            is_number_text(text.as_bytes()),
            text.parse::<f64>().is_ok(),
            "{:?}",
            text
        );
    }
}

#[test]
fn number_text_agrees_with_the_standard_parser_on_short_strings() {
    let alphabet: Vec<u8> = b"0 5.+-eEinfaNtyx".to_vec();
    let mut text: Vec<u8> = Vec::new();
    let mut count: u32 = 0;
    for len in 0..=4usize {
        let mut index = vec![0usize; len];
        loop {
            text.clear();
            for i in 0..len {
                text.push(alphabet[index[i]]);
            }
            let expected = std::str::from_utf8(&text).unwrap().parse::<f64>().is_ok();
            assert_eq!(is_number_text(&text), expected, "{:?}", String::from_utf8_lossy(&text));
            count += 1;
            let mut place = 0;
            while place < len {
                index[place] += 1;
                if index[place] < alphabet.len() {
                    break;
                }
                index[place] = 0;
                place += 1;
            }
            if place == len {
                break;
            }
        }
    }
    assert_eq!(count, 1 + 16 + 256 + 4096 + 65536);
}
