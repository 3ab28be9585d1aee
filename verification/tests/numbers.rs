use drshell::decimal::{i32_to_string, parse_i32, parse_usize, usize_to_string};
use drshell::lines::lines_of;

const SAMPLES: [&str; 40] = [
    "",
    "0",
    "1",
    "9",
    "10",
    "007",
    "+0",
    "+12",
    "-0",
    "-12",
    "+",
    "-",
    "+-1",
    "-+1",
    "--1",
    "++1",
    " 1",
    "1 ",
    "1_000",
    "0x10",
    "12a",
    "a12",
    "١٢",
    "2147483647",
    "2147483648",
    "-2147483648",
    "-2147483649",
    "+2147483647",
    "4294967295",
    "4294967296",
    "18446744073709551615",
    "18446744073709551616",
    "+18446744073709551615",
    "-18446744073709551615",
    "000000000000000000000000000018446744073709551615",
    "99999999999999999999999999999999999999",
    "1.0",
    "1e3",
    "\u{ff11}",
    "٣",
];

#[test]
fn unsigned_numbers_are_read_as_the_standard_reads_them() {
    for text in SAMPLES {
        assert_eq!(parse_usize(text), text.parse::<usize>().ok(), "{:?}", text);
    }
    assert_eq!(parse_usize("42"), Some(42));
    assert_eq!(parse_usize("+42"), Some(42));
    assert_eq!(parse_usize("-42"), None);
    assert_eq!(parse_usize(&usize::MAX.to_string()), Some(usize::MAX));
}

#[test]
fn signed_numbers_are_read_as_the_standard_reads_them() {
    for text in SAMPLES {
        assert_eq!(parse_i32(text), text.parse::<i32>().ok(), "{:?}", text);
    }
    assert_eq!(parse_i32("-42"), Some(-42));
    assert_eq!(parse_i32("2147483647"), Some(i32::MAX));
    assert_eq!(parse_i32("-2147483648"), Some(i32::MIN));
    assert_eq!(parse_i32("2147483648"), None);
    assert_eq!(parse_i32("-2147483649"), None);
}

#[test]
fn numbers_are_written_as_the_standard_writes_them() {
    for n in [0usize, 1, 9, 10, 11, 99, 100, 101, 12345, 1 << 31, usize::MAX] {
        assert_eq!(usize_to_string(n), n.to_string());
    }
    for n in [0i32, 1, -1, 9, -9, 10, -10, 2024, -2024, i32::MAX, i32::MIN] {
        assert_eq!(i32_to_string(n), n.to_string());
    }
    assert_eq!(usize_to_string(1024), "1024");
    assert_eq!(i32_to_string(-7), "-7");
}

#[test]
fn a_written_number_is_read_back() {
    for n in [0usize, 7, 70, 700, 7007, usize::MAX] {
        assert_eq!(parse_usize(&usize_to_string(n)), Some(n));
    }
    for n in [0i32, 7, -7, i32::MAX, i32::MIN] {
        assert_eq!(parse_i32(&i32_to_string(n)), Some(n));
    }
}

#[test]
fn lines_are_cut_as_the_standard_cuts_them() {
    for text in [
        "",
        "\n",
        "\n\n",
        "a",
        "a\n",
        "a\nb",
        "a\r\nb\r\n",
        "a\rb\r",
        "\r",
        "\r\n",
        "\r\r\n",
        "é\nüber\r\n\u{10000}\n\u{2028}x",
        "ls -l\necho 'a b' > f\n\ncat f | wc\n",
    ] {
        let expected: Vec<String> = text.lines().map(|l| l.to_string()).collect();
        assert_eq!(lines_of(text), expected, "{:?}", text);
    }
    assert_eq!(lines_of("a\r\nb"), vec!["a", "b"]);
}
