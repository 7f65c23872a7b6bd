use todo_list::float::{compare_bits, truncate_bits, widen_to_bits};
use todo_list::query::evaluator::value::Number;

fn widened_by_the_machine(n: i64) -> u64 {
    (n as f64).to_bits()
}

fn truncated_by_the_machine(x: f64) -> i64 {
    x as i64
}

fn integers() -> Vec<i64> {
    let mut all = vec![0, 1, -1, 2, 3, 7, 10, -10, 1000, 123_456_789, i64::MAX, i64::MIN, i64::MAX - 1, i64::MIN + 1];
    for shift in 50..63 {
        let power = 1i64 << shift;
        for delta in -3..4 {
            all.push(power + delta);
            all.push(-(power + delta));
        }
        let half = 1i64 << (shift - 1);
        all.push(power + half);
        all.push(power + half + 1);
        all.push(power + half - 1);
        all.push(power + 3 * (half >> 1));
    }
    all
}

fn doubles() -> Vec<f64> {
    let mut all = vec![
        0.0, -0.0, 0.5, -0.5, 0.999_999, 1.0, -1.0, 1.5, 2.0, 2.5, -2.5, 1e10, -1e10, 1e18, 9.2e18, -9.2e18,
        9_223_372_036_854_775_807.0, -9_223_372_036_854_775_808.0, 1e19, -1e19, 1e300, -1e300,
        f64::INFINITY, f64::NEG_INFINITY, f64::NAN, f64::MIN_POSITIVE, f64::MAX, f64::MIN, 5e-324,
        4_503_599_627_370_496.0, 4_503_599_627_370_497.0, 9_007_199_254_740_992.0, 9_007_199_254_740_993.5,
    ];
    for n in integers() {
        all.push(f64::from_bits(widened_by_the_machine(n)));
    }
    all
}

#[test]
fn widen_gives_the_nearest_double() {
    for n in integers() {
        assert_eq!(widen_to_bits(n), widened_by_the_machine(n), "{}", n);
    }
    assert_eq!(widen_to_bits(1), 0x3FF0_0000_0000_0000);
    assert_eq!(widen_to_bits(-2), 0xC000_0000_0000_0000);
    assert_eq!(widen_to_bits(9_007_199_254_740_993), 0x4340_0000_0000_0000);
    assert_eq!(widen_to_bits(9_007_199_254_740_995), 0x4340_0000_0000_0002);
}

#[test]
fn truncate_cuts_off_toward_zero() {
    for x in doubles() {
        assert_eq!(truncate_bits(x.to_bits()), truncated_by_the_machine(x), "{}", x);
    }
    assert_eq!(truncate_bits(2.9f64.to_bits()), 2);
    assert_eq!(truncate_bits((-2.9f64).to_bits()), -2);
    assert_eq!(truncate_bits(f64::NAN.to_bits()), 0);
    assert_eq!(truncate_bits(f64::INFINITY.to_bits()), i64::MAX);
    assert_eq!(truncate_bits(f64::NEG_INFINITY.to_bits()), i64::MIN);
}

#[test]
fn doubles_are_ordered_as_the_machine_orders_them() {
    let all = doubles();
    for a in &all {
        for b in &all {
            assert_eq!(compare_bits(a.to_bits(), b.to_bits()), a.partial_cmp(b), "{} {}", a, b);
        }
    }
}

#[test]
fn texts_are_read_as_the_machine_reads_them() {
    let texts = [
        "0", "-0", "1", "+1", "1.0", "-1.5", ".5", "5.", "+.5", "-5.", "1e3", "1E3", "1e+3", "1e-3",
        "1.5e300", "1e400", "-1e400", "1e-400", "0.1", "30.1", "3.14", "9223372036854775808",
        "-9223372036854775809", "123456789012345678901234567890", "inf", "INF", "Inf", "infinity",
        "Infinity", "INFINITY", "nan", "NaN", "NAN", "+inf", "-inf", "+INF", "-Infinity",
        "+infinity", "+nan", "-nan", "-NaN", "", " ", "+", "-", ".", "e", "e5", "1e", "1e+", "1.e",
        " 1", "1 ", "1,5", "1_000", "0x10", "--1", "+-1", "-+1", "++inf", "+-inf", "infinit",
        "+in", "-infinityy", "nans", "+na", "1.5.5", "1e5e5", "١٢٣", "1f", "1.0f64",
    ];
    for text in texts {
        let integer = text.parse::<i64>().ok();
        let double = text.parse::<f64>().ok();
        match (Number::parse(text), integer, double) {
            (Some(Number::Int(read)), Some(expected), _) => assert_eq!(read, expected, "{:?}", text),
            (Some(Number::Float(read)), None, Some(expected)) => {
                assert_eq!(read.bits(), expected.to_bits(), "{:?}", text);
                assert_eq!(read.text(), expected.to_string(), "{:?}", text);
            }
            (None, None, None) => {}
            (read, integer, double) => panic!("{:?}: {:?} {:?} {:?}", text, read, integer, double),
        }
    }
}

#[test]
fn small_integers_survive_widening() {
    for n in [0, 1, -1, 2, 1023, -4096, 4_503_599_627_370_496, -4_503_599_627_370_497, 9_007_199_254_740_991, 9_007_199_254_740_992, -9_007_199_254_740_992] {
        assert_eq!(truncate_bits(widen_to_bits(n)), n);
    }
    assert_eq!(truncate_bits(widen_to_bits(9_007_199_254_740_993)), 9_007_199_254_740_992);
}
