use bstr::ByteSlice;
use pgm_parser::combinator::{and_then, Parser};
use pgm_parser::error::ParseErr;
use pgm_parser::header::match_header_version;
use pgm_parser::number::{consumed_len, get_num, num_of_field, num_of_parsed, num_of_text};
use pgm_parser::pixels::{get_bytes, get_pixels};

/// Removes from every line but the first the indentation that those lines
/// share.
fn unindent(text: &str) -> String {
    let shared = text
        .lines()
        .skip(1)
        .filter(|line| !line.trim().is_empty())
        .map(|line| line.len() - line.trim_start_matches(' ').len())
        .min()
        .unwrap_or(0);
    let lines: Vec<&str> = text
        .lines()
        .enumerate()
        .map(|(i, line)| if i > 0 && line.len() >= shared { &line[shared..] } else { line })
        .collect();
    lines.join("\n")
}

#[test]
fn match_header_version_obv() {
    let mock_header = unindent(
        "P5
            120 32",
    );
    let mock_header: &[u8] = mock_header.as_bytes();

    assert_eq!(
        match match_header_version(mock_header) {
            Ok(((), s)) => Ok(((), s.as_bstr())),
            Err((er, s)) => Err((er, s.as_bstr())),
        },
        Ok(((), "120 32".as_bytes().as_bstr())),
    );
}

#[test]
fn get_num_single() {
    assert_eq!(get_num("12".as_bytes()), Ok((12, "".as_bytes())));
}

#[test]
fn get_num_multiple() {
    assert_eq!(get_num("12 24".as_bytes()), Ok((12, "24".as_bytes())));
}

#[test]
fn and_then_map_2_nums() {
    let input = b"12 14 16";

    let res = and_then(get_num, move |n1| {
        pgm_parser::combinator::map(get_num, move |n2| (n1, n2))
    })
    .parse(input);

    assert_eq!(res, Ok(((12, 14), "16".as_bytes())),);
}

#[test]
fn header_leaves_exactly_what_follows_the_newline() {
    let rests: [&[u8]; 4] = [b"", b"1", b"120 32\n255\n\x00\x01", b"\nP5\n"];
    for rest in rests {
        let mut input = b"P5\n".to_vec();
        input.extend_from_slice(rest);
        assert_eq!(match_header_version(&input), Ok(((), rest)));
    }
}

#[test]
fn header_takes_any_byte_after_the_tag() {
    assert_eq!(match_header_version(b"P5 120"), Ok(((), &b"120"[..])));
    assert_eq!(match_header_version(b"P5X12"), Ok(((), &b"12"[..])));
    assert_eq!(match_header_version(b"P55"), Ok(((), &b""[..])));
}

#[test]
fn header_mismatch_hands_the_input_back() {
    let inputs: [&[u8]; 7] = [b"", b"P", b"P6\n1 1", b"p5\n", b" P5\n", b"5P\n", b"\nP5"];
    for input in inputs {
        assert_eq!(match_header_version(input), Err((ParseErr::HeaderMismatch, input)));
    }
}

#[test]
fn header_tag_with_nothing_after_it_is_a_mismatch() {
    assert_eq!(match_header_version(b"P5"), Err((ParseErr::HeaderMismatch, &b"P5"[..])));
}

#[test]
fn header_failure_repeats() {
    let first = match_header_version(b"P4\n1 1\n");
    let at = first.as_ref().unwrap_err().1;
    assert_eq!(match_header_version(at), first);
}

#[test]
fn get_num_without_a_field() {
    assert_eq!(get_num(b""), Err((ParseErr::NoFieldLeft, &b""[..])));
    assert_eq!(get_num(b"   "), Err((ParseErr::NoFieldLeft, &b"   "[..])));
    assert_eq!(get_num(b"\n\t \r"), Err((ParseErr::NoFieldLeft, &b"\n\t \r"[..])));
}

#[test]
fn get_num_rejects_text_that_is_no_number() {
    let expected = "12x".parse::<i32>().unwrap_err();
    assert_eq!(get_num(b"12x"), Err((ParseErr::InvalidNumber(expected), &b"12x"[..])));

    let expected = "x".parse::<i32>().unwrap_err();
    assert_eq!(get_num(b"x 12"), Err((ParseErr::InvalidNumber(expected), &b"x 12"[..])));

    let expected = "-".parse::<i32>().unwrap_err();
    assert_eq!(get_num(b"- 1"), Err((ParseErr::InvalidNumber(expected), &b"- 1"[..])));

    let expected = "1_000".parse::<i32>().unwrap_err();
    assert_eq!(get_num(b"1_000"), Err((ParseErr::InvalidNumber(expected), &b"1_000"[..])));
}

#[test]
fn get_num_rejects_numbers_that_do_not_fit() {
    assert_eq!(get_num(b"2147483647"), Ok((i32::MAX, &b""[..])));
    assert_eq!(get_num(b"-2147483648 0"), Ok((i32::MIN, &b"0"[..])));

    let expected = "2147483648".parse::<i32>().unwrap_err();
    assert_eq!(
        get_num(b"2147483648"),
        Err((ParseErr::InvalidNumber(expected), &b"2147483648"[..]))
    );
    let expected = "-2147483649".parse::<i32>().unwrap_err();
    assert_eq!(
        get_num(b"-2147483649 7"),
        Err((ParseErr::InvalidNumber(expected), &b"-2147483649 7"[..]))
    );
}

#[test]
fn get_num_rejects_bytes_that_are_no_text() {
    let input: &[u8] = b"\xff\xfe 12";
    let expected = b"\xff\xfe".to_str().unwrap_err();
    assert_eq!(get_num(input), Err((ParseErr::TextDecodeError(expected), input)));

    let input: &[u8] = b"1\xc3";
    let expected = input.to_str().unwrap_err();
    assert_eq!(get_num(input), Err((ParseErr::TextDecodeError(expected), input)));
}

#[test]
fn get_num_reads_signs_and_leading_zeros() {
    assert_eq!(get_num(b"-7 1"), Ok((-7, &b"1"[..])));
    assert_eq!(get_num(b"+7"), Ok((7, &b""[..])));
    assert_eq!(get_num(b"007\n"), Ok((7, &b""[..])));
    assert_eq!(get_num(b"-0"), Ok((0, &b""[..])));
    assert_eq!(get_num(b"0"), Ok((0, &b""[..])));
}

#[test]
fn get_num_takes_one_separator_only() {
    assert_eq!(get_num(b"7\n8"), Ok((7, &b"8"[..])));
    assert_eq!(get_num(b"7\t8"), Ok((7, &b"8"[..])));
    assert_eq!(get_num(b"7  8"), Ok((7, &b" 8"[..])));
    assert_eq!(get_num(b"255\n\x00\x01\x02"), Ok((255, &b"\x00\x01\x02"[..])));
}

#[test]
fn get_num_counts_from_the_front_of_the_input() {
    // The field is found after the blank, but what is dropped is counted
    // from the first byte: the length of the field and one more.
    assert_eq!(get_num(b" 12 24"), Ok((12, &b" 24"[..])));
    assert_eq!(get_num(b"  7"), Ok((7, &b"7"[..])));
}

#[test]
fn get_num_failure_repeats() {
    let inputs: [&[u8]; 4] = [b"", b"  \n", b"12x 4", b"\xff 1"];
    for input in inputs {
        let first = get_num(input);
        let at = first.as_ref().unwrap_err().1;
        assert_eq!(at, input);
        assert_eq!(get_num(at), first);
    }
}

#[test]
fn consumed_len_adds_one_unless_at_the_end() {
    assert_eq!(consumed_len(2, 2), 2);
    assert_eq!(consumed_len(2, 3), 3);
    assert_eq!(consumed_len(2, 5), 3);
    assert_eq!(consumed_len(0, 0), 0);
    assert_eq!(consumed_len(0, 4), 1);
}

#[test]
fn num_of_parsed_finishes_a_read() {
    assert_eq!(num_of_parsed(b"12 24", 2, Ok(12)), Ok((12, &b"24"[..])));
    assert_eq!(num_of_parsed(b"12", 2, Ok(12)), Ok((12, &b""[..])));
    assert_eq!(num_of_parsed(b"12 24", 2, Ok(-3)), Ok((-3, &b"24"[..])));

    let e = "".parse::<i32>().unwrap_err();
    assert_eq!(
        num_of_parsed(b"12 24", 2, Err(e.clone())),
        Err((ParseErr::InvalidNumber(e), &b"12 24"[..]))
    );
}

#[test]
fn num_of_text_parses_or_hands_on() {
    assert_eq!(num_of_text(b"12 24", 2, Ok("12")), Ok((12, &b"24"[..])));
    assert_eq!(num_of_text(b"ab 24", 2, Ok("-5")), Ok((-5, &b"24"[..])));

    let e = "1.5".parse::<i32>().unwrap_err();
    assert_eq!(
        num_of_text(b"1.5 2", 3, Ok("1.5")),
        Err((ParseErr::InvalidNumber(e), &b"1.5 2"[..]))
    );

    let e = b"\x80".to_str().unwrap_err();
    assert_eq!(
        num_of_text(b"\x80 2", 1, Err(e.clone())),
        Err((ParseErr::TextDecodeError(e), &b"\x80 2"[..]))
    );
}

#[test]
fn num_of_field_decodes_or_reports_none() {
    assert_eq!(num_of_field(b"12 24", Some(b"12")), Ok((12, &b"24"[..])));
    assert_eq!(num_of_field(b"12 24", None), Err((ParseErr::NoFieldLeft, &b"12 24"[..])));

    let e = b"\xc0".to_str().unwrap_err();
    assert_eq!(
        num_of_field(b"\xc0 1", Some(b"\xc0")),
        Err((ParseErr::TextDecodeError(e), &b"\xc0 1"[..]))
    );
}

#[test]
fn get_bytes_copies_the_front() {
    assert_eq!(get_bytes(b"abcdef", 4), Ok((b"abcd".to_vec(), &b"ef"[..])));
    assert_eq!(get_bytes(b"abcdef", 6), Ok((b"abcdef".to_vec(), &b""[..])));
    assert_eq!(get_bytes(b"abcdef", 0), Ok((vec![], &b"abcdef"[..])));
    assert_eq!(get_bytes(b"", 0), Ok((vec![], &b""[..])));
    assert_eq!(get_bytes(b"\x00\xff\x0a", 2), Ok((vec![0, 255], &b"\x0a"[..])));
}

#[test]
fn get_bytes_wants_all_it_asked_for() {
    assert_eq!(get_bytes(b"abcdef", 7), Err((ParseErr::InsufficientBytes, &b"abcdef"[..])));
    assert_eq!(get_bytes(b"", 1), Err((ParseErr::InsufficientBytes, &b""[..])));
    assert_eq!(
        get_bytes(b"abc", usize::MAX),
        Err((ParseErr::InsufficientBytes, &b"abc"[..]))
    );
}

#[test]
fn get_bytes_failure_repeats() {
    let first = get_bytes(b"abc", 5);
    let at = first.as_ref().unwrap_err().1;
    assert_eq!(get_bytes(at, 5), first);
}

#[test]
fn get_pixels_reads_one_byte_for_each_pixel() {
    assert_eq!(get_pixels(b"abcdefg", 2, 3), Ok((b"abcdef".to_vec(), &b"g"[..])));
    assert_eq!(get_pixels(b"abcdef", 3, 2), Ok((b"abcdef".to_vec(), &b""[..])));
    assert_eq!(get_pixels(b"abc", 0, 7), Ok((vec![], &b"abc"[..])));
    assert_eq!(get_pixels(b"abc", 7, 0), Ok((vec![], &b"abc"[..])));
    assert_eq!(get_pixels(b"abc", 1, 1), Ok((b"a".to_vec(), &b"bc"[..])));
}

#[test]
fn get_pixels_fails_for_want_of_bytes() {
    assert_eq!(get_pixels(b"abcde", 2, 3), Err((ParseErr::InsufficientBytes, &b"abcde"[..])));
    assert_eq!(
        get_pixels(b"abcde", i32::MAX, i32::MAX),
        Err((ParseErr::InsufficientBytes, &b"abcde"[..]))
    );
    assert_eq!(
        get_pixels(b"abcde", 65536, 65536),
        Err((ParseErr::InsufficientBytes, &b"abcde"[..]))
    );
}

#[test]
fn get_pixels_has_no_count_for_a_negative_dimension() {
    assert_eq!(get_pixels(b"abcde", -1, 3), Err((ParseErr::InsufficientBytes, &b"abcde"[..])));
    assert_eq!(get_pixels(b"abcde", 3, -1), Err((ParseErr::InsufficientBytes, &b"abcde"[..])));
    assert_eq!(get_pixels(b"abcde", -1, -1), Err((ParseErr::InsufficientBytes, &b"abcde"[..])));
    assert_eq!(get_pixels(b"abcde", -1, 0), Err((ParseErr::InsufficientBytes, &b"abcde"[..])));
}
