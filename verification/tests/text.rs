use bigbrother::ordered::OrderedMap;
use bigbrother::text::{
    chars_of, contains, digit, find_last, lower_slice, read_number, same_text, slice_of, space,
    take_before, to_lower, trim, write_digits, write_number, write_padded,
};

#[test]
fn trimming() {
    assert_eq!(trim("  a b \t\n"), "a b");
    assert_eq!(trim(""), "");
    assert_eq!(trim(" \u{3000}\u{a0} "), "");
    assert_eq!(trim("\u{2003}x\u{2028}"), "x");
    assert_eq!(trim("\u{200b}x"), "\u{200b}x");
    for s in ["", " ", "a", " a", "a ", " a b ", "\u{85}a\u{1680}", "\u{feff}a", "\u{1c}a\u{1f}"] {
        assert_eq!(trim(s), s.trim());
    }
    for c in ['\t', '\n', '\u{b}', '\u{c}', '\r', ' ', '\u{85}', '\u{a0}', '\u{205f}', 'a', '0', '\u{0}'] {
        assert_eq!(space(c), c.is_whitespace());
    }
}

#[test]
fn numbers_written_and_read() {
    assert_eq!(write_digits(0), "0");
    assert_eq!(write_digits(4294967295), "4294967295");
    assert_eq!(write_number(0), "0");
    assert_eq!(write_number(-2147483648), "-2147483648");
    assert_eq!(write_number(2147483647), "2147483647");
    assert_eq!(write_padded(0), "00");
    assert_eq!(write_padded(9), "09");
    assert_eq!(write_padded(10), "10");
    assert_eq!(write_padded(-1), "-1");
    assert_eq!(write_padded(-10), "-10");
    assert_eq!(write_padded(100), "100");
    for n in [0, 1, 9, 10, 11, 99, 100, 2147483647, -1, -9, -10, -2147483648] {
        assert_eq!(write_number(n), format!("{}", n));
        assert_eq!(write_padded(n), format!("{:02}", n));
    }
    let v = chars_of("x0123y");
    assert_eq!(read_number(&v, 1, 5), Some(123));
    assert_eq!(read_number(&v, 1, 1), None);
    assert_eq!(read_number(&v, 0, 5), None);
    assert_eq!(read_number(&v, 4, 6), None);
    let v = chars_of("2147483647");
    assert_eq!(read_number(&v, 0, 10), Some(2147483647));
    let v = chars_of("2147483648");
    assert_eq!(read_number(&v, 0, 10), None);
    let v = chars_of("00000000000000000000007");
    assert_eq!(read_number(&v, 0, 23), Some(7));
    let v = chars_of("\u{0663}");
    assert_eq!(read_number(&v, 0, 1), None);
    assert!(digit('0') && digit('9') && !digit('a') && !digit('/') && !digit(':'));
}

#[test]
fn texts_compared_and_searched() {
    assert!(same_text("", ""));
    assert!(same_text("a\u{ff08}", "a\u{ff08}"));
    assert!(!same_text("a", "A"));
    assert!(!same_text("a", "ab"));
    assert!(contains("object not found here", "not found"));
    assert!(contains("not found", "not found"));
    assert!(contains("x", ""));
    assert!(contains("", ""));
    assert!(!contains("not foun", "not found"));
    assert!(!contains("", "a"));
    assert!(!contains("Not Found", "not found"));
    assert_eq!(find_last(&chars_of("a.b.c"), '.'), Some(3));
    assert_eq!(find_last(&chars_of("abc"), '.'), None);
    assert_eq!(find_last(&chars_of(""), '.'), None);
    assert_eq!(slice_of("h\u{e9}llo", 1, 3), "\u{e9}l");
    assert_eq!(take_before("2005-03-24", '-'), "2005");
    assert_eq!(take_before("2005", '-'), "2005");
    assert_eq!(to_lower('A'), 'a');
    assert_eq!(to_lower('Z'), 'z');
    assert_eq!(to_lower('a'), 'a');
    assert_eq!(to_lower('['), '[');
    assert_eq!(to_lower('@'), '@');
    assert_eq!(to_lower('\u{c9}'), '\u{c9}');
    assert_eq!(lower_slice(&chars_of("xMkV9"), 1, 4), vec!['m', 'k', 'v']);
}

#[test]
fn ordered_maps() {
    let mut m: OrderedMap<String> = OrderedMap::new();
    assert_eq!(m.len(), 0);
    assert!(!m.contains(1));
    for (k, v) in [(5, "e"), (1, "a"), (3, "c"), (-2, "z"), (3, "C"), (9, "i"), (1, "A")] {
        m.put(k, v.to_string());
    }
    let keys: Vec<i32> = (0..m.len()).map(|i| m.key_at(i)).collect();
    assert_eq!(keys, vec![-2, 1, 3, 5, 9]);
    let values: Vec<&str> = (0..m.len()).map(|i| m.value_at(i).as_str()).collect();
    assert_eq!(values, vec!["z", "A", "C", "e", "i"]);
    assert_eq!(m.find(3), Some(2));
    assert_eq!(m.find(4), None);
    assert_eq!(m.get(5).map(|s| s.as_str()), Some("e"));
    assert_eq!(m.get(6), None);
    assert!(m.contains(-2));
    assert_eq!(m.remove_at(1), (1, "A".to_string()));
    let keys: Vec<i32> = (0..m.len()).map(|i| m.key_at(i)).collect();
    assert_eq!(keys, vec![-2, 3, 5, 9]);
}
