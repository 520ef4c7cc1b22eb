use delta_grep::decimal::{number_text, parse_number};

#[test]
fn numbers_are_read() {
    assert_eq!(parse_number("0"), Some(0));
    assert_eq!(parse_number("7"), Some(7));
    assert_eq!(parse_number("1234567890"), Some(1234567890));
    assert_eq!(parse_number("007"), Some(7));
    assert_eq!(parse_number("+12"), Some(12));
}

#[test]
fn other_texts_are_no_numbers() {
    for text in ["", "+", "-1", "1x", "x1", " 1", "1 ", "++1", "1+", "٣"] {
        assert_eq!(parse_number(text), None, "{}", text);
    }
}

#[test]
fn the_largest_number_is_the_last() {
    let largest = usize::MAX.to_string();
    assert_eq!(parse_number(&largest), Some(usize::MAX));
    let larger = (usize::MAX as u128 + 1).to_string();
    assert_eq!(parse_number(&larger), None);
    assert_eq!(parse_number(&format!("{}0", largest)), None);
}

#[test]
fn numbers_are_read_as_the_standard_library_reads_them() {
    let alphabet = ['0', '1', '9', '+', '-', 'a'];
    let mut texts = vec![String::new()];
    for _ in 0..4 {
        let mut longer = Vec::new();
        for text in &texts {
            for c in alphabet {
                longer.push(format!("{}{}", text, c));
            }
        }
        for text in &longer {
            assert_eq!(parse_number(text), text.parse::<usize>().ok(), "{}", text);
        }
        texts = longer;
    }
}

#[test]
fn a_written_number_is_read_back() {
    for n in [0, 1, 9, 10, 11, 99, 100, 101, 65535, 1000000, usize::MAX] {
        assert_eq!(number_text(n), n.to_string());
        assert_eq!(parse_number(&number_text(n)), Some(n));
    }
}
