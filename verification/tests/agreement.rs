use babylon_bindings::value::{parse, to_text, Json};
use babylon_bindings::wire::{read_i32, read_text, read_u32, read_u64};

const NUMBERS: [&str; 40] = [
    "0",
    "1",
    "9",
    "10",
    "123456789",
    "-1",
    "-0",
    "-9",
    "007",
    "00",
    "-01",
    "18446744073709551615",
    "18446744073709551616",
    "184467440737095516150",
    "4294967295",
    "4294967296",
    "2147483647",
    "2147483648",
    "-2147483648",
    "-2147483649",
    "-9223372036854775808",
    " 12 ",
    "\t1\n",
    "\r\n 7",
    "1 2",
    "1,",
    "+1",
    "1.0",
    "1e1",
    "--1",
    "-",
    "",
    " ",
    "null",
    "\"1\"",
    "0x10",
    "1a",
    "{}",
    "1}",
    "\u{663}",
];

#[test]
fn unsigned_numbers_are_read_as_the_host_format_reads_them() {
    for input in NUMBERS {
        let ours = parse(input.as_bytes()).and_then(|j| read_u64(&j));
        let theirs = cosmwasm_std::from_json::<u64>(input.as_bytes()).ok();
        assert_eq!(ours, theirs, "{:?}", input);
        let ours = parse(input.as_bytes()).and_then(|j| read_u32(&j));
        let theirs = cosmwasm_std::from_json::<u32>(input.as_bytes()).ok();
        assert_eq!(ours, theirs, "{:?}", input);
    }
}

#[test]
fn signed_numbers_are_read_as_the_host_format_reads_them() {
    for input in NUMBERS {
        let ours = parse(input.as_bytes()).and_then(|j| read_i32(&j));
        let theirs = cosmwasm_std::from_json::<i32>(input.as_bytes()).ok();
        assert_eq!(ours, theirs, "{:?}", input);
    }
}

#[test]
fn numbers_are_written_as_the_host_format_writes_them() {
    for n in [
        0u64,
        1,
        9,
        10,
        99,
        100,
        4294967295,
        4294967296,
        9999999999999999999,
        10000000000000000000,
        u64::MAX,
    ] {
        let ours = to_text(&Json::Number(babylon_bindings::number::Number {
            negative: false,
            magnitude: n,
        }));
        assert_eq!(ours, cosmwasm_std::to_json_vec(&n).unwrap());
    }
    for n in [0i32, 1, -1, 10, -10, i32::MAX, i32::MIN, -2147483647] {
        let ours = to_text(&babylon_bindings::wire::write_signed(n));
        assert_eq!(ours, cosmwasm_std::to_json_vec(&n).unwrap());
    }
}

const STRINGS: [&str; 34] = [
    "\"\"",
    "\"a\"",
    " \"a\" ",
    "\"a b\"",
    "\"\\\"\"",
    "\"\\\\\"",
    "\"\\/\"",
    "\"\\b\\f\\n\\r\\t\"",
    "\"\\u0041\"",
    "\"\\u00e9\"",
    "\"\\u00E9\"",
    "\"\\u20AC\"",
    "\"\\ud83d\\ude00\"",
    "\"\\uD83D\\uDE00x\"",
    "\"\\udbff\\udfff\"",
    "\"\\u0000\"",
    "\"\u{e9}\u{4e2d}\u{1F600}\"",
    "\"\\ud83d\"",
    "\"\\ud83d\\u0041\"",
    "\"\\ud83dx\"",
    "\"\\ude00\"",
    "\"\\ude00\\ud83d\"",
    "\"\\u12\"",
    "\"\\u12g4\"",
    "\"\\x\"",
    "\"\\\"",
    "\"abc",
    "abc\"",
    "\"a\"b\"",
    "\"a\" \"b\"",
    "'a'",
    "null",
    "1",
    "",
];

#[test]
fn strings_are_read_as_the_host_format_reads_them() {
    for input in STRINGS {
        let ours = parse(input.as_bytes()).and_then(|j| read_text(&j));
        let theirs = cosmwasm_std::from_json::<String>(input.as_bytes()).ok();
        assert_eq!(ours, theirs, "{:?}", input);
    }
}

#[test]
fn bytes_that_are_not_text_are_refused_as_the_host_format_refuses_them() {
    for input in [
        &b"\"\xff\""[..],
        b"\"\xc3\"",
        b"\"\xc3\xa9\"",
        b"\"\xe2\x82\"",
        b"\"\xe2\x82\xac\"",
        b"\"\xed\xa0\x80\"",
        b"\"\xf0\x9f\x98\x80\"",
        b"\"\xf4\x90\x80\x80\"",
        b"\"\xc0\x80\"",
        b"\"\\n\xff\"",
        b"\"\\n\xc3\xa9\"",
    ] {
        let ours = parse(input).and_then(|j| read_text(&j));
        let theirs = cosmwasm_std::from_json::<String>(input).ok();
        assert_eq!(ours, theirs, "{:?}", input);
    }
}

#[test]
fn every_char_below_the_latin_block_is_written_as_the_host_format_writes_it() {
    for code in 0u32..0x300 {
        let c = char::from_u32(code).unwrap();
        let sample = format!("a{}b", c);
        let ours = to_text(&Json::Text(sample.clone()));
        let theirs = cosmwasm_std::to_json_vec(&sample).unwrap();
        assert_eq!(ours, theirs, "{:?}", sample);
        assert_eq!(parse(&ours), Some(Json::Text(sample)));
    }
}
