use opentelemetry_sink::addition::NAN_BITS;
use opentelemetry_sink::keys::{find_key, find_place};
use opentelemetry_sink::number::{double_from_integer, round};
use opentelemetry_sink::text::{
    compare_text, same_text, strip_prefix, trim_end, trim_start, TextOrder,
};
use opentelemetry_sink::uri::join_path;
use opentelemetry_sink::value::{Double, ObjectMap, Timestamp, Value};

#[test]
fn text_is_ordered_by_its_bytes() {
    let texts = ["", "A", "a", "a b", "a.b", "ab", "b", "\u{E9}", "\u{FFFD}", "\u{1F30D}"];
    for (i, a) in texts.iter().enumerate() {
        for (j, b) in texts.iter().enumerate() {
            let expected = if i < j {
                TextOrder::Before
            } else if i == j {
                TextOrder::Same
            } else {
                TextOrder::After
            };
            assert_eq!(compare_text(a, b), expected);
            assert_eq!(same_text(a, b), i == j);
            assert_eq!(a < b, i < j);
        }
    }
}

#[test]
fn slashes_are_trimmed() {
    assert_eq!(trim_start("//a/", '/'), "a/");
    assert_eq!(trim_end("/a//", '/'), "/a");
    assert_eq!(trim_start("///", '/'), "");
    assert_eq!(trim_end("", '/'), "");
    assert_eq!(strip_prefix("resource.\u{E9}", "resource."), Some("\u{E9}"));
    assert_eq!(strip_prefix("resource", "resource."), None);
    assert_eq!(strip_prefix("resources.x", "resource."), None);
    assert_eq!(join_path("http://h", "p"), "http://h/p");
    assert_eq!(join_path("http://h/", "//p"), "http://h/p");
}

#[test]
fn objects_keep_their_names_in_order() {
    let mut map = ObjectMap::new();
    assert!(map.is_empty());
    for name in ["b", "a", "c", "a"] {
        map.insert(name.to_string(), Value::Integer(map.len() as i64));
    }
    assert_eq!(map.len(), 3);
    let names: Vec<&str> = (0..map.len()).map(|i| map.name(i).as_str()).collect();
    assert_eq!(names, vec!["a", "b", "c"]);
    assert!(matches!(map.get("a"), Some(Value::Integer(3))));
    assert!(matches!(map.value(1), Value::Integer(0)));
    assert!(matches!(map.remove("a"), Some(Value::Integer(3))));
    assert!(map.remove("a").is_none());
    assert!(!map.contains_key("a"));
    assert!(map.contains_key("c"));
    let entries = vec![("a".to_string(), 1), ("c".to_string(), 2)];
    assert_eq!(find_key(&entries, "c"), Some(1));
    assert_eq!(find_key(&entries, "b"), None);
    assert_eq!(find_place(&entries, "b"), 1);
}

#[test]
fn points_in_time_have_a_range() {
    assert!(Timestamp::new(-8334601228800, 0).is_some());
    assert!(Timestamp::new(-8334601228801, 0).is_none());
    assert!(Timestamp::new(8210266876799, 999999999).is_some());
    assert!(Timestamp::new(8210266876800, 0).is_none());
    assert!(Timestamp::new(59, 1500000000).is_some());
    assert!(Timestamp::new(58, 1500000000).is_none());
    assert!(Timestamp::new(-1, 1500000000).is_some());
    assert!(Timestamp::new(0, 2000000000).is_none());
    for secs in [-8334601228800i64, -61, -1, 0, 59, 60, 8210266876799] {
        for nanos in [0u32, 999999999, 1000000000, 1999999999, 2000000000] {
            let expected = chrono::DateTime::from_timestamp(secs, nanos);
            let time = Timestamp::new(secs, nanos);
            assert_eq!(time.is_some(), expected.is_some());
            if let (Some(time), Some(expected)) = (time, expected) {
                assert_eq!(time.timestamp_nanos_opt(), expected.timestamp_nanos_opt());
                assert_eq!(time.to_text(), expected.to_string());
                assert_eq!((time.secs(), time.nanos()), (secs, nanos));
            }
        }
    }
}

#[test]
fn nanoseconds_have_a_range() {
    let nanos = |secs: i64, nanos: u32| Timestamp::new(secs, nanos).unwrap().timestamp_nanos_opt();
    assert_eq!(nanos(0, 5), Some(5));
    assert_eq!(nanos(-1, 999999999), Some(-1));
    assert_eq!(nanos(9223372036, 854775807), Some(i64::MAX));
    assert_eq!(nanos(9223372036, 854775808), None);
    assert_eq!(nanos(-9223372037, 145224192), Some(i64::MIN));
    assert_eq!(nanos(-9223372037, 145224191), None);
    assert_eq!(Timestamp::new(0, 0).unwrap().to_text(), "1970-01-01 00:00:00 UTC");
}

#[test]
fn values_tell_what_they_are() {
    assert_eq!(Value::from_text("x").as_str(), Some("x".to_string()));
    assert_eq!(Value::Bytes(vec![0xFF]).as_str(), Some("\u{FFFD}".to_string()));
    assert_eq!(Value::Integer(1).as_str(), None);
    assert_eq!(Value::Integer(1).as_integer(), Some(1));
    assert_eq!(Value::Float(Double { bits: 0 }).as_integer(), None);
    assert!(Value::Array(vec![]).as_array().is_some());
    assert!(Value::Null.as_array().is_none());
    assert!(Value::Object(ObjectMap::new()).as_object().is_some());
    assert!(Value::Null.as_object().is_none());
    assert!(Value::Null.as_timestamp().is_none());
}

#[test]
fn whole_numbers_become_the_nearest_doubles() {
    let mut numbers: Vec<u64> = vec![0, 1, 2, 3, 5, 7, 10, 1000, 123456789, u64::MAX, u64::MAX - 1];
    for shift in 50..64 {
        for offset in 0..6u64 {
            numbers.push((1u64 << shift) + offset);
            numbers.push((1u64 << shift) - offset);
            numbers.push((1u64 << shift) + (1u64 << (shift - 50)) + offset);
        }
    }
    for number in numbers {
        assert_eq!(double_from_integer(number).bits, (number as f64).to_bits(), "{}", number);
        assert_eq!(round(number as u128), (number as f64) as u128, "{}", number);
    }
}

#[test]
fn doubles_are_ordered_by_value() {
    let values = [
        f64::NEG_INFINITY,
        -1e300,
        -1.5,
        -1e-300,
        -0.0,
        0.0,
        5e-324,
        0.1,
        1.0,
        f64::MAX,
        f64::INFINITY,
        f64::NAN,
        -f64::NAN,
    ];
    let double = |x: f64| Double { bits: x.to_bits() };
    for a in values {
        assert_eq!(double(a).is_nan(), a.is_nan());
        for b in values {
            assert_eq!(double(a).at_most(double(b)), a <= b, "{} {}", a, b);
            let smaller = f64::from_bits(double(a).smaller(double(b)).bits);
            let larger = f64::from_bits(double(a).larger(double(b)).bits);
            if a.is_nan() && b.is_nan() {
                assert!(smaller.is_nan() && larger.is_nan());
            } else {
                assert_eq!(smaller, a.min(b));
                assert_eq!(larger, a.max(b));
            }
        }
    }
}

fn check_sum(a: f64, b: f64) {
    let sum = Double { bits: a.to_bits() }.plus(Double { bits: b.to_bits() });
    let expected = a + b;
    if expected.is_nan() {
        assert_eq!(sum.bits, NAN_BITS, "{} {}", a, b);
    } else {
        assert_eq!(sum.bits, expected.to_bits(), "{} {}", a, b);
    }
}

#[test]
fn sums_are_those_of_floating_point() {
    let numbers = [
        0.0,
        1.0,
        0.1,
        0.2,
        0.3,
        1.5,
        3.0,
        1e7,
        9007199254740991.0,
        9007199254740992.0,
        9007199254740993.0,
        9007199254740994.0,
        1e16,
        1e17,
        1e22,
        1e23,
        1e300,
        f64::MAX,
        f64::MAX / 2.0,
        f64::MIN_POSITIVE,
        f64::EPSILON,
        f64::EPSILON / 2.0,
        5e-324,
        1e-323,
        2.2250738585072009e-308,
        1e-308,
        1e-300,
        f64::INFINITY,
        f64::NAN,
    ];
    for a in numbers {
        for b in numbers {
            check_sum(a, b);
            check_sum(-a, b);
            check_sum(a, -b);
            check_sum(-a, -b);
        }
    }
}

#[test]
fn sums_of_any_bit_patterns_are_those_of_floating_point() {
    let mut state: u64 = 0x9E37_79B9_7F4A_7C15;
    let mut draw = || {
        state ^= state << 13;
        state ^= state >> 7;
        state ^= state << 17;
        state
    };
    for _ in 0..20000 {
        let a = draw();
        let b = draw();
        check_sum(f64::from_bits(a), f64::from_bits(b));
        // Exponents that are near each other
        let distance = draw() % 130;
        let near = (a & 0x7FF0_0000_0000_0000).saturating_sub(distance << 52);
        let c = (b & 0x800F_FFFF_FFFF_FFFF) | (near & 0x7FF0_0000_0000_0000);
        check_sum(f64::from_bits(a), f64::from_bits(c));
        check_sum(f64::from_bits(c), f64::from_bits(a));
        // Numbers below the normal ones
        check_sum(
            f64::from_bits(a & 0x801F_FFFF_FFFF_FFFF),
            f64::from_bits(b & 0x801F_FFFF_FFFF_FFFF),
        );
    }
}
