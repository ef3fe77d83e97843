use ndn_dashboard_next::number::{
    decimal, decimal_signed, decimal_size, flag, hex, hex_of_bytes, one_place, parse_i64,
    parse_u64, parse_usize, two_places,
};

const NUMBERS: [u64; 14] = [
    0,
    1,
    9,
    10,
    255,
    256,
    999,
    1000,
    4_294_967_295,
    4_503_599_627_370_497,
    9_007_199_254_740_993,
    9_223_372_036_854_775_807,
    9_223_372_036_854_775_808,
    u64::MAX,
];

#[test]
fn numerals_agree_with_the_language() {
    for n in NUMBERS {
        assert_eq!(decimal(n), n.to_string());
        assert_eq!(parse_u64(&decimal(n)), Some(n));
        assert_eq!(hex(n), format!("{n:x}"));
        assert_eq!(decimal_size(n as usize), (n as usize).to_string());
        let signed = n as i64;
        assert_eq!(decimal_signed(signed), signed.to_string());
        assert_eq!(parse_i64(&decimal_signed(signed)), Some(signed));
    }
    assert_eq!(hex_of_bytes(&[0x00, 0x0f, 0xa0, 0xff]), "000fa0ff");
    assert_eq!(flag(true), "true");
    assert_eq!(flag(false), "false");
}

#[test]
fn reading_agrees_with_the_language() {
    for s in [
        "",
        "+",
        "-",
        "0",
        "+7",
        "-7",
        "007",
        " 7",
        "7 ",
        "1_000",
        "18446744073709551615",
        "18446744073709551616",
        "9223372036854775807",
        "9223372036854775808",
        "-9223372036854775808",
        "-9223372036854775809",
        "++1",
        "\u{0661}",
    ] {
        assert_eq!(parse_u64(s), s.parse::<u64>().ok(), "u64 {s}");
        assert_eq!(parse_usize(s), s.parse::<usize>().ok(), "usize {s}");
        assert_eq!(parse_i64(s), s.parse::<i64>().ok(), "i64 {s}");
    }
}

#[test]
fn places_round_like_doubles() {
    for unit in [1u64, 1000, 1024, 1_000_000, 1_048_576, 1_073_741_824] {
        let mut n = unit;
        let mut step = 1u64;
        while n < u64::MAX / 3 {
            assert_eq!(
                one_place(n, unit),
                format!("{:.1}", n as f64 / unit as f64),
                "{n} over {unit}"
            );
            assert_eq!(
                two_places(n, unit),
                format!("{:.2}", n as f64 / unit as f64),
                "{n} over {unit}"
            );
            step = step.wrapping_mul(6364136223846793005).wrapping_add(1442695040888963407);
            n = n + n / 7 + 1 + step % 13;
        }
    }
}
