use limux_host::float_bits::{double_below, double_of_unsigned, narrow, single_below, widen};
use limux_host::float_ops::{
    add_doubles, add_singles, halve_double, round_to_i32, subtract_doubles,
};
use limux_host::json::{lookup, without, Json, JsonNumber};
use limux_host::paths::folder_name;
use limux_host::text::{
    decimal, eq_ignore_ascii_case, parse_number, starts_with, strip_prefix, trim,
};

/// Pseudo-random patterns, with the corners of the formats among them.
fn patterns() -> Vec<u64> {
    let mut all: Vec<u64> = Vec::new();
    for value in [
        0.0f64,
        -0.0,
        1.0,
        -1.0,
        0.5,
        1.5,
        2.5,
        -2.5,
        0.1,
        1e300,
        -1e300,
        5e-324,
        2.2250738585072014e-308,
        1.7976931348623157e308,
        f64::INFINITY,
        f64::NEG_INFINITY,
        2147483647.5,
        -2147483648.5,
        4503599627370497.5,
        3.4028235677973366e38,
        1.401298464324817e-45,
        7.006492321624085e-46,
        1.1754943508222875e-38,
        100.25,
    ] {
        all.push(value.to_bits());
    }
    let mut state: u64 = 0x9E37_79B9_7F4A_7C15;
    for i in 0..400u64 {
        state ^= state << 13;
        state ^= state >> 7;
        state ^= state << 17;
        all.push(state);
        // numbers of ordinary size
        let exponent = 1023 - 40 + state % 80;
        all.push((state & 0x800F_FFFF_FFFF_FFFF) | (exponent << 52));
        all.push(((i as f64) * 1.37 - 200.0).to_bits());
    }
    all
}

fn same_double(bits: u64, value: f64) -> bool {
    if value.is_nan() {
        f64::from_bits(bits).is_nan()
    } else {
        bits == value.to_bits()
    }
}

#[test]
fn sums_agree_with_the_machine() {
    let all = patterns();
    for (i, &a) in all.iter().enumerate() {
        for j in 0..40 {
            let b = all[(i * 7 + j * 31) % all.len()];
            let (x, y) = (f64::from_bits(a), f64::from_bits(b));
            assert!(same_double(add_doubles(a, b), x + y), "{x:e} + {y:e}");
            assert!(same_double(subtract_doubles(a, b), x - y), "{x:e} - {y:e}");
            if !x.is_nan() && !y.is_nan() {
                assert_eq!(double_below(a, b), x < y);
            }
        }
        let x = f64::from_bits(a);
        assert!(same_double(halve_double(a), x / 2.0), "{x:e} / 2");
        assert_eq!(round_to_i32(a), x.round() as i32, "{x:e}");
    }
}

#[test]
fn single_sums_agree_with_the_machine() {
    let all = patterns();
    for (i, &a) in all.iter().enumerate() {
        for j in 0..40 {
            let a = (a >> 17) as u32;
            let b = (all[(i * 11 + j * 17) % all.len()] >> 29) as u32;
            let (x, y) = (f32::from_bits(a), f32::from_bits(b));
            let sum = f32::from_bits(add_singles(a, b));
            if (x + y).is_nan() {
                assert!(sum.is_nan());
            } else {
                assert_eq!(sum.to_bits(), (x + y).to_bits(), "{x:e} + {y:e}");
            }
            if !x.is_nan() && !y.is_nan() {
                assert_eq!(single_below(a, b), x < y);
            }
        }
    }
}

#[test]
fn conversions_agree_with_the_machine() {
    for a in patterns() {
        let x = f64::from_bits(a);
        let narrowed = f32::from_bits(narrow(a));
        if x.is_nan() {
            assert!(narrowed.is_nan());
        } else {
            assert_eq!(narrowed.to_bits(), (x as f32).to_bits(), "{x:e}");
        }
        let s = (a >> 13) as u32;
        let y = f32::from_bits(s);
        if y.is_nan() {
            assert!(f64::from_bits(widen(s)).is_nan());
        } else {
            assert_eq!(widen(s), (y as f64).to_bits(), "{y:e}");
            assert_eq!(narrow(widen(s)), s);
        }
        assert_eq!(double_of_unsigned(a), (a as f64).to_bits(), "{a}");
        assert_eq!(double_of_unsigned(a >> 20), ((a >> 20) as f64).to_bits());
    }
    assert_eq!(double_of_unsigned(u64::MAX), (u64::MAX as f64).to_bits());
}

#[test]
fn json_numbers_are_read_as_doubles() {
    let double = |n| f64::from_bits(Json::Number(n).as_double().unwrap());
    assert_eq!(double(JsonNumber::Unsigned(9007199254740993)), 9007199254740992.0);
    assert_eq!(double(JsonNumber::Negative(-3)), -3.0);
    assert_eq!(double(JsonNumber::Negative(i64::MIN)), i64::MIN as f64);
    assert_eq!(double(JsonNumber::Float(0.25f64.to_bits())), 0.25);
    assert_eq!(Json::Null.as_double(), None);
}

#[test]
fn later_fields_replace_earlier_ones() {
    let object = Json::object()
        .with("a", Json::unsigned(1))
        .with("b", Json::Null)
        .with("a", Json::Bool(true));
    assert_eq!(object.get("a").unwrap().as_bool(), Some(true));
    assert_eq!(object.get("c"), None);
    assert_eq!(Json::Null.get("a"), None);
    assert_eq!(object.copy(), object);
    match object {
        Json::Object(entries) => {
            let rest = without(entries, "a");
            assert_eq!(lookup(&rest, "a"), None);
            assert_eq!(lookup(&rest, "b"), Some(&Json::Null));
        }
        _ => panic!("no object"),
    }
    assert_eq!(Json::unsigned(3).with("a", Json::Null), Json::unsigned(3));
    assert_eq!(Json::text("x").as_str(), Some("x"));
}

#[test]
fn text_primitives_agree_with_the_standard_library() {
    for s in ["", " ", " a b ", "\u{a0}x\u{2003}", "\u{200b}x", "\t\r\n\u{85}y", "\u{3000}"] {
        assert_eq!(trim(s), s.trim(), "{s:?}");
    }
    for code in 0..0x11_0000u32 {
        if let Some(c) = char::from_u32(code) {
            if code < 0x3100 || code % 97 == 0 {
                assert_eq!(trim(&c.to_string()).is_empty(), c.is_whitespace(), "{code:#x}");
            }
        }
    }
    for n in [0u128, 7, 10, 99, 100, 12345678901234567890, u128::MAX] {
        assert_eq!(decimal(n), n.to_string());
    }
    assert_eq!(parse_number(&decimal(u32::MAX as u128)), Some(u32::MAX));
    assert!(eq_ignore_ascii_case("Text/Plain", "tEXT/pLAIN"));
    assert!(!eq_ignore_ascii_case("\u{c4}", "\u{e4}"));
    assert!(!eq_ignore_ascii_case("@", "`"));
    assert!(starts_with("\u{e4}bc", "\u{e4}b"));
    assert_eq!(strip_prefix("\u{e4}bc", "\u{e4}"), Some("bc"));
    assert_eq!(strip_prefix("abc", "b"), None);
}

#[test]
fn the_last_component_names_a_folder() {
    for (path, name) in [
        ("", None),
        ("/", None),
        ("//", None),
        (".", None),
        ("./", None),
        ("./.", None),
        ("/.", None),
        ("..", None),
        ("../", None),
        ("a/..", None),
        ("a/../.", None),
        ("a", Some("a")),
        ("a/", Some("a")),
        ("a//", Some("a")),
        ("a/.", Some("a")),
        ("a/././/", Some("a")),
        ("/a/b", Some("b")),
        ("/a//b//", Some("b")),
        ("./a", Some("a")),
        ("a/...", Some("...")),
        ("a/.b", Some(".b")),
        ("a/b.", Some("b.")),
        ("a/ ", Some(" ")),
        ("..a", Some("..a")),
        ("/../x", Some("x")),
        ("\u{e4}/\u{20ac}/", Some("\u{20ac}")),
        ("a\\b", Some("a\\b")),
    ] {
        assert_eq!(folder_name(path, "none"), name.unwrap_or("none"), "{path:?}");
    }
}
