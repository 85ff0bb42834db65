use cfml_browser::pdf::{paper_size, parse_ranges, PageRange, PaperSize};

fn r(start: Option<usize>, end: Option<usize>) -> PageRange {
    PageRange { start, end }
}

#[test]
fn ranges_in_the_cdp_spelling() {
    let v = parse_ranges("1-3,7").ok().unwrap();
    assert_eq!(v, vec![r(Some(1), Some(3)), r(Some(7), Some(7))]);
}

#[test]
fn open_bounds_and_blank_items() {
    let v = parse_ranges(" 2 - , ,-5,, 9 ").ok().unwrap();
    assert_eq!(v, vec![r(Some(2), None), r(None, Some(5)), r(Some(9), Some(9))]);
    assert_eq!(parse_ranges("").ok().unwrap(), vec![]);
    assert_eq!(parse_ranges("-").ok().unwrap(), vec![r(None, None)]);
}

#[test]
fn numbers_parse_as_usize_does() {
    assert_eq!(parse_ranges("+4").ok().unwrap(), vec![r(Some(4), Some(4))]);
    assert_eq!(parse_ranges("007").ok().unwrap(), vec![r(Some(7), Some(7))]);
    let e = parse_ranges("99999999999999999999999").err().unwrap();
    assert_eq!(e.message, "bad page range [99999999999999999999999] — expected a number or 'from-to'");
}

#[test]
fn bad_items_are_errors() {
    let e = parse_ranges("1,x,2").err().unwrap();
    assert_eq!(e.message, "bad page range [x] — expected a number or 'from-to'");
    let e = parse_ranges("1-x").err().unwrap();
    assert_eq!(e.message, "bad page range [1-x]");
    let e = parse_ranges("1-2-3").err().unwrap();
    assert_eq!(e.message, "bad page range [1-2-3]");
    let e = parse_ranges(" a - 3 ").err().unwrap();
    assert_eq!(e.message, "bad page range [a - 3]");
}

#[test]
fn named_papers() {
    assert_eq!(paper_size("A4").ok().unwrap(), PaperSize { width_centi_in: 827, height_centi_in: 1170 });
    assert_eq!(paper_size("letter").ok().unwrap(), PaperSize { width_centi_in: 850, height_centi_in: 1100 });
    assert_eq!(paper_size("TABLOID").ok().unwrap(), PaperSize { width_centi_in: 1100, height_centi_in: 1700 });
    assert_eq!(paper_size("a3").ok().unwrap(), PaperSize { width_centi_in: 1170, height_centi_in: 1650 });
    assert_eq!(paper_size("A5").ok().unwrap(), PaperSize { width_centi_in: 583, height_centi_in: 827 });
    assert_eq!(paper_size("Legal").ok().unwrap(), PaperSize { width_centi_in: 850, height_centi_in: 1400 });
}

#[test]
fn unknown_paper_lists_the_names() {
    let e = paper_size("B5").err().unwrap();
    assert_eq!(
        e.message,
        "unknown paper [b5] — expected A3, A4, A5, Letter, Legal or Tabloid, or give paperWidth/paperHeight in inches"
    );
}
