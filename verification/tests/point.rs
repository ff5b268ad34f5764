use zibi::point::Point;

#[test]
fn point_parse_basic() {
    assert_eq!(Point::parse("3,4"), Some(Point { x: 3, y: 4 }));
}

#[test]
fn parse_negative_values() {
    assert_eq!(Point::parse("-12,-7"), Some(Point { x: -12, y: -7 }));
}

#[test]
fn parse_trims_surrounding_and_inner_whitespace() {
    assert_eq!(Point::parse("  10 , 20  "), Some(Point { x: 10, y: 20 }));
    assert_eq!(Point::parse("\t5,\t6\n"), Some(Point { x: 5, y: 6 }));
}

#[test]
fn parse_zero() {
    assert_eq!(Point::parse("0,0"), Some(Point { x: 0, y: 0 }));
}

#[test]
fn parse_rejects_missing_comma() {
    assert_eq!(Point::parse("42"), None);
}

#[test]
fn parse_rejects_empty() {
    assert_eq!(Point::parse(""), None);
    assert_eq!(Point::parse("   "), None);
}

#[test]
fn parse_rejects_non_numeric() {
    assert_eq!(Point::parse("a,b"), None);
    assert_eq!(Point::parse("1,b"), None);
    assert_eq!(Point::parse("a,2"), None);
}

#[test]
fn parse_rejects_out_of_range() {
    // i16 max is 32767.
    assert_eq!(Point::parse("40000,0"), None);
}

#[test]
fn parse_rejects_extra_component() {
    assert_eq!(Point::parse("1,2,3"), None);
}

#[test]
fn parse_accepts_the_i16_limits_and_signs() {
    assert_eq!(Point::parse("-32768,32767"), Some(Point { x: -32768, y: 32767 }));
    assert_eq!(Point::parse("+7,-0"), Some(Point { x: 7, y: 0 }));
    assert_eq!(Point::parse("007,010"), Some(Point { x: 7, y: 10 }));
    assert_eq!(Point::parse("32768,0"), None);
    assert_eq!(Point::parse("0,-32769"), None);
    assert_eq!(Point::parse("99999999999999999999,1"), None);
}

#[test]
fn parse_rejects_bare_signs_and_inner_spaces() {
    assert_eq!(Point::parse("-,1"), None);
    assert_eq!(Point::parse("+,1"), None);
    assert_eq!(Point::parse("1 2,3"), None);
    assert_eq!(Point::parse("- 1,3"), None);
    assert_eq!(Point::parse(",1"), None);
    assert_eq!(Point::parse("1,"), None);
}

#[test]
fn parse_trims_unicode_whitespace() {
    assert_eq!(Point::parse("\u{a0}1,\u{2003}2\u{3000}"), Some(Point { x: 1, y: 2 }));
    assert_eq!(Point::parse("\u{200b}1,2"), None);
}

#[test]
fn parse_matches_std_on_many_inputs() {
    let inputs = [
        "1,2", " 1 ,2 ", "a", "1,,2", "  ", "\n-5,\r\n6", "+-1,2", "1,+2", "１,2",
        "\u{85}3,4\u{85}", "2,3 4", "-32768,-32768",
    ];
    for s in inputs.iter() {
        let expected = s.trim().split_once(',').and_then(|(x, y)| {
            Some(Point { x: x.trim().parse().ok()?, y: y.trim().parse().ok()? })
        });
        assert_eq!(Point::parse(s), expected, "input {:?}", s);
    }
}

#[test]
fn parse_reads_back_displayed_points() {
    for &(x, y) in [(0i16, 0i16), (-1, 1), (32767, -32768), (-32768, 32767), (120, -7)].iter() {
        let text = format!("{},{}", x, y);
        assert_eq!(Point::parse(&text), Some(Point { x, y }));
    }
}

#[test]
fn parse_with_two_commas_is_rejected() {
    assert_eq!(Point::parse("1,2,"), None);
    assert_eq!(Point::parse(" ,1,2"), None);
    assert_eq!(Point::parse("1, ,2"), None);
}
