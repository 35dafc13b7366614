use pgm_parser::combinator::{and_then, Parser};
use pgm_parser::error::{ParseErr, ParseResult};
use pgm_parser::header::match_header_version;
use pgm_parser::number::get_num;
use pgm_parser::pixels::get_bytes;

#[test]
fn a_function_is_a_parser() {
    assert_eq!(get_num.parse(b"3 4"), Ok((3, &b"4"[..])));
    assert_eq!(match_header_version.parse(b"P5\n3"), Ok(((), &b"3"[..])));

    let two_bytes = |input| get_bytes(input, 2);
    assert_eq!(two_bytes.parse(b"abc"), Ok((b"ab".to_vec(), &b"c"[..])));
}

#[test]
fn map_changes_the_value_only() {
    let doubled = pgm_parser::combinator::map(get_num, |n| n * 2);
    assert_eq!(doubled.parse(b"21 rest"), Ok((42, &b"rest"[..])));

    let shown = pgm_parser::combinator::map(get_num, |n| format!("<{}>", n));
    assert_eq!(shown.parse(b"7"), Ok((String::from("<7>"), &b""[..])));
}

#[test]
fn map_hands_a_failure_on_unchanged() {
    let doubled = pgm_parser::combinator::map(get_num, |n| n * 2);
    assert_eq!(doubled.parse(b"  "), Err((ParseErr::NoFieldLeft, &b"  "[..])));

    let expected = "z".parse::<i32>().unwrap_err();
    assert_eq!(doubled.parse(b"z 1"), Err((ParseErr::InvalidNumber(expected), &b"z 1"[..])));
}

#[test]
fn and_then_runs_the_second_parser_on_the_rest() {
    let counted = and_then(get_num, |n: i32| move |input| get_bytes(input, n as usize));
    assert_eq!(counted.parse(b"3 abcdef"), Ok((b"abc".to_vec(), &b"def"[..])));
    assert_eq!(counted.parse(b"0 abcdef"), Ok((vec![], &b"abcdef"[..])));
}

#[test]
fn and_then_stops_at_the_first_failure() {
    let counted = and_then(get_num, |n: i32| move |input| get_bytes(input, n as usize));
    let expected = "x".parse::<i32>().unwrap_err();
    assert_eq!(
        counted.parse(b"x abcdef"),
        Err((ParseErr::InvalidNumber(expected), &b"x abcdef"[..]))
    );
}

#[test]
fn and_then_reports_a_later_failure_where_it_happened() {
    let counted = and_then(get_num, |n: i32| move |input| get_bytes(input, n as usize));
    assert_eq!(counted.parse(b"9 abcdef"), Err((ParseErr::InsufficientBytes, &b"abcdef"[..])));

    let pair = and_then(get_num, move |n1| {
        pgm_parser::combinator::map(get_num, move |n2| (n1, n2))
    });
    let expected = "y".parse::<i32>().unwrap_err();
    assert_eq!(pair.parse(b"12 y 16"), Err((ParseErr::InvalidNumber(expected), &b"y 16"[..])));
    assert_eq!(pair.parse(b"12"), Err((ParseErr::NoFieldLeft, &b""[..])));
}

#[test]
fn a_chain_of_three_threads_values_and_rest() {
    let triple = and_then(get_num, move |a| {
        and_then(get_num, move |b| {
            pgm_parser::combinator::map(get_num, move |c| (a, b, c))
        })
    });
    assert_eq!(triple.parse(b"1 2 3 4"), Ok(((1, 2, 3), &b"4"[..])));
}

#[test]
fn a_parser_that_returns_without_reading() {
    let unit = |input| -> ParseResult<'_, u8> { Ok((9, input)) };
    let then = and_then(get_num, move |n| {
        pgm_parser::combinator::map(unit, move |m| (n, m))
    });
    assert_eq!(then.parse(b"5 tail"), Ok(((5, 9), &b"tail"[..])));
}
