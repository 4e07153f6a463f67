use hltas::number::Number;
use hltas::read::line::parse_times;
use hltas::read::{non_shared_seed, non_zero_u32, shared_seed, ErrorKind, Rule};
use hltas::types::{Positive, Times};

fn chars(text: &str) -> Vec<char> {
    text.chars().collect()
}

#[test]
fn takes_numbers_in_decimal_notation() {
    for text in [
        "0", "1", "-1", "+1", "1.", "1.5", ".5", "-.5", "+.5", "0.001", "1e5", "1E5", "1e+5",
        "1e-5", "1.e5", ".5e5", "-1.5E-10", "007", "170", "0.0000001",
    ] {
        let number = Number::new(text);
        assert!(number.is_some(), "{}", text);
        assert_eq!(number.unwrap().as_str(), text);
    }
}

#[test]
fn refuses_what_is_no_number() {
    for text in [
        "", "-", "+", ".", "e5", "1e", "1e+", "1e-", "-.", "1 ", " 1", "1x", "x", "1.5.5", "1e5.5",
        "--1", "+-1", "1,5", "nan", "inf", "0x10", "1e5e5",
    ] {
        assert!(Number::new(text).is_none(), "{}", text);
    }
}

#[test]
fn refuses_what_single_precision_cannot_hold() {
    for text in [
        "340282356779733661637539395458142568448",
        "340282356779733661637539395458142568448.0",
        "-340282356779733661637539395458142568448",
        "340282356779733661637539395458142568449",
        "3.40282356779733661637539395458142568448e38",
        "0.340282356779733661637539395458142568448e39",
        "340282356779733661637539395458142568448000e-3",
        "34028235677973366163753939545814256844800000000000000000000e-20",
        "3.4028236e38",
        "3.5e38",
        "4e38",
        "1e39",
        "1e40",
        "1e+100",
        "0.1e40",
        "00000.1e40",
        "1000000000000000000000000000000000000000",
        "0.0000000001e49",
        "1e99999999999999999999999999999999999999999999",
        "-1e99999999999999999999999999999999999999999999",
        "0.000000000000000000000000000000000000000000001e99999999999999999999999999999999",
    ] {
        assert!(Number::new(text).is_none(), "{}", text);
        assert!(!text.parse::<f32>().unwrap().is_finite(), "{}", text);
    }
}

#[test]
fn takes_what_single_precision_can_hold() {
    for text in [
        "340282356779733661637539395458142568447",
        "340282356779733661637539395458142568447.99999999999999999999999999",
        "-340282356779733661637539395458142568447",
        "340282346638528859811704183484516925440",
        "3.40282356779733661637539395458142568447e38",
        "340282356779733661637539395458142568447999e-3",
        "3402823567797336616375393954581425684479999999999999999999999999999999e-31",
        "0.340282356779733661637539395458142568447e39",
        "3.4028235e38",
        "3.4028234e38",
        "3e38",
        "1e38",
        "99999999999999999999999999999999999999",
        "0.1e39",
        "0e39",
        "0e99999999999999999999999999999999999999999999",
        "0.0e+99999999999999999999999999999999999999999999",
        "1e-99999999999999999999999999999999999999999999",
        "123456789e-99999999999999999999999999999999999999",
        "1e-45",
        "1e-46",
        "0.000000000000000000000000000000000000000000001e83",
        "00000000000000000000000000000000000000000000000000000000001",
        "1.00000000000000000000000000000000000000000000000000000000000000000000000000",
    ] {
        assert!(Number::new(text).is_some(), "{}", text);
        assert!(text.parse::<f32>().unwrap().is_finite(), "{}", text);
    }
}

#[test]
fn holds_what_single_precision_holds() {
    let mantissas = ["1", "9", "34", "340282356", "3402823567797336616375393954581425684", "35"];
    for mantissa in mantissas {
        for power in 0..80 {
            for text in [
                format!("{}e{}", mantissa, power),
                format!("0.{}e{}", mantissa, power),
                format!("{}.5e{}", mantissa, power),
                format!("{}000e{}", mantissa, power),
                format!("-{}e+{}", mantissa, power),
                format!("{}e-{}", mantissa, power),
            ] {
                let held = text.parse::<f32>().unwrap().is_finite();
                assert_eq!(Number::new(&text).is_some(), held, "{}", text);
            }
        }
    }
}

#[test]
fn tells_what_is_zero_in_single_precision() {
    for text in [
        "0",
        "-0",
        "+0",
        "0.0",
        ".0",
        "0.",
        "000",
        "0e5",
        "0.000e-7",
        "-0.0E+9",
        "0e99999999999999999999999999999999999999999999",
        "1e-46",
        "7e-46",
        "7.006492321624085e-46",
        "7.00649232162408535461864791644958065640130970938257885878534141944895541342930300743319094181060791015625e-46",
        "0.000000000000000000000000000000000000000000000700649232162408535461864791644958065640130970938257885878534141944895541342930300743319094181060791015625",
        "700649232162408535461864791644958065640130970938257885878534141944895541342930300743319094181060791015625e-150",
        "700649232162408535461864791644958065640130970938257885878534141944895541342930300743319094181060791015625000e-153",
        "70064923216240853546186479164495806564013097093825788587853414194489554134293030074331909418106079101562499999e-155",
        "1e-99999999999999999999999999999999999999999999",
        "-1e-99999999999999999999999999999999999999999999",
    ] {
        assert!(Number::new(text).unwrap().is_zero(), "{}", text);
        assert!(text.parse::<f32>().unwrap() == 0.0, "{}", text);
    }
    for text in [
        "1",
        "0.1",
        ".001",
        "-0.0001",
        "1e0",
        "10",
        "0.10e5",
        "1e-45",
        "7.1e-46",
        "7.006492321624086e-46",
        "7.00649232162408535461864791644958065640130970938257885878534141944895541342930300743319094181060791015626e-46",
        "700649232162408535461864791644958065640130970938257885878534141944895541342930300743319094181060791015625001e-153",
        "7006492321624085354618647916449580656401309709382578858785341419448955413429303007433190941810607910156250000000000000000000000000001e-178",
        "0.000000000000000000000000000000000000000000001",
    ] {
        assert!(!Number::new(text).unwrap().is_zero(), "{}", text);
        assert!(text.parse::<f32>().unwrap() != 0.0, "{}", text);
    }
    assert!(Number::zero().is_zero());
    assert_eq!(Number::zero().as_str(), "0");
}

#[test]
fn is_zero_where_single_precision_is() {
    let mantissas = ["1", "7", "70", "7006492321", "70064923216240853546186479164495806564", "8"];
    for mantissa in mantissas {
        for power in 0..90 {
            for text in [
                format!("{}e-{}", mantissa, power),
                format!("0.{}e-{}", mantissa, power),
                format!("{}.5e-{}", mantissa, power),
                format!("0.000{}e-{}", mantissa, power),
                format!("-{}000e-{}", mantissa, power),
            ] {
                let value = text.parse::<f32>().unwrap();
                match Number::new(&text) {
                    Some(number) => assert_eq!(number.is_zero(), value == 0.0, "{}", text),
                    None => assert!(value.is_infinite(), "{}", text),
                }
            }
        }
    }
}

#[test]
fn a_copy_of_a_number_is_the_same_number() {
    let number = Number::new("-12.5e3").unwrap();
    assert_eq!(number.clone(), number);
}

#[test]
fn a_count_is_never_zero() {
    assert_eq!(Positive::new(0), None);
    assert_eq!(Positive::new(1).unwrap().get(), 1);
    assert_eq!(Positive::new(u32::MAX).unwrap().get(), u32::MAX);
    assert_eq!(Positive::one().get(), 1);
}

#[test]
fn times_and_numbers_go_both_ways() {
    assert_eq!(Times::from(0), Times::UnlimitedWithinFrameBulk);
    assert_eq!(Times::from(5), Times::Limited(Positive::new(5).unwrap()));
    assert_eq!(u32::from(Times::UnlimitedWithinFrameBulk), 0);
    assert_eq!(u32::from(Times::Limited(Positive::new(7).unwrap())), 7);
}

#[test]
fn a_count_left_out_is_unlimited() {
    for text in ["", "-", "b", "|", "0", "05", " 5", "x5"] {
        let input = chars(text);
        let (rest, times) = parse_times(&input);
        assert_eq!(times, Times::UnlimitedWithinFrameBulk, "{}", text);
        assert_eq!(rest.len(), input.len());
    }
}

#[test]
fn a_count_that_is_written_is_limited() {
    for (text, count, left) in [
        ("1", 1, 0),
        ("5-", 5, 1),
        ("10|", 10, 1),
        ("4294967295", 4294967295, 0),
        ("100x0", 100, 2),
        ("1000000000", 1000000000, 0),
    ] {
        let input = chars(text);
        let (rest, times) = parse_times(&input);
        assert_eq!(times, Times::Limited(Positive::new(count).unwrap()), "{}", text);
        assert_eq!(rest.len(), left);
    }
}

#[test]
fn a_count_that_is_too_large_is_no_count() {
    for text in ["4294967296", "99999999999", "123456789012345678901234567890"] {
        let input = chars(text);
        let (rest, times) = parse_times(&input);
        assert_eq!(times, Times::UnlimitedWithinFrameBulk);
        assert_eq!(rest.len(), input.len());
        let err = non_zero_u32(&input).unwrap_err();
        assert_eq!(err.kind, ErrorKind::Other(Rule::MapRes));
        assert_eq!(err.remaining, input.len());
    }
    let err = non_zero_u32(&chars("0")).unwrap_err();
    assert_eq!(err.kind, ErrorKind::Other(Rule::OneOf));
}

#[test]
fn reads_seeds_up_to_their_limits() {
    assert_eq!(shared_seed(&chars("0")).unwrap().1, 0);
    assert_eq!(shared_seed(&chars("007 x")).unwrap().1, 7);
    assert_eq!(shared_seed(&chars("4294967295")).unwrap().1, u32::MAX);
    assert_eq!(
        shared_seed(&chars("4294967296")).unwrap_err().kind,
        ErrorKind::Other(Rule::MapRes)
    );
    assert_eq!(shared_seed(&chars("-1")).unwrap_err().kind, ErrorKind::Other(Rule::Digit));

    assert_eq!(non_shared_seed(&chars("0")).unwrap().1, 0);
    assert_eq!(non_shared_seed(&chars("-0")).unwrap().1, 0);
    assert_eq!(non_shared_seed(&chars("-12ab")).unwrap().1, -12);
    assert_eq!(non_shared_seed(&chars("9223372036854775807")).unwrap().1, i64::MAX);
    assert_eq!(non_shared_seed(&chars("-9223372036854775808")).unwrap().1, i64::MIN);
    assert_eq!(
        non_shared_seed(&chars("9223372036854775808")).unwrap_err().kind,
        ErrorKind::Other(Rule::MapRes)
    );
    assert_eq!(
        non_shared_seed(&chars("-9223372036854775809")).unwrap_err().kind,
        ErrorKind::Other(Rule::MapRes)
    );
    assert_eq!(non_shared_seed(&chars("+1")).unwrap_err().kind, ErrorKind::Other(Rule::Digit));
    assert_eq!(non_shared_seed(&chars("-")).unwrap_err().kind, ErrorKind::Other(Rule::Digit));
}
