use human_size::bounded;
use human_size::error::SizeError;
use human_size::input::{number_text, requested_unit};
use human_size::unbounded;
use human_size::unbounded::Magnitude;
use human_size::unit::Unit;

fn big(text: &str, requested: Option<Unit>) -> String {
    unbounded::human_size(text, requested).unwrap()
}

fn small(text: &str, requested: Option<Unit>) -> String {
    bounded::human_size(text, requested).unwrap()
}

fn args(items: &[&str]) -> Vec<String> {
    items.iter().map(|s| s.to_string()).collect()
}

#[test]
fn small_magnitudes_are_bytes() {
    assert_eq!(big("512", None), "512 bytes");
    assert_eq!(small("512", None), "512 bytes");
    assert_eq!(big("0", None), "0 bytes");
    assert_eq!(big("1", None), "1 bytes");
    assert_eq!(big("1023", None), "1023 bytes");
    assert_eq!(small("1023", None), "1023 bytes");
}

#[test]
fn exactly_one_kib_is_kib() {
    assert_eq!(big("1024", None), "1 KiB");
    assert_eq!(small("1024", None), "1 KiB");
}

#[test]
fn just_below_one_mib_is_kib() {
    let line = big("1048575", None);
    assert!(line.ends_with(" KiB"));
    assert_eq!(line, "1024.00 KiB");
    assert_eq!(small("1048575", None), "1024.00 KiB");
}

#[test]
fn precision_switches_at_the_divisor() {
    assert_eq!(big("2048", Some(Unit::KiB)), "2 KiB");
    assert_eq!(big("1536", None), "1.5 KiB");
    assert_eq!(big("1000", Some(Unit::KiB)), "0.977 KiB");
    assert_eq!(small("1536", None), "1.5 KiB");
}

#[test]
fn requested_unit_overrides_selection() {
    assert_eq!(big("100", Some(Unit::KiB)), "0.098 KiB");
    assert_eq!(small("100", Some(Unit::KiB)), "0.098 KiB");
    assert_eq!(big("1048576", Some(Unit::KiB)), "1024 KiB");
    assert_eq!(big("1024", Some(Unit::ZiB)).ends_with(" ZiB"), true);
    assert_eq!(big("1", Some(Unit::YiB)).ends_with(" YiB"), true);
}

#[test]
fn unbounded_ceiling_is_yib() {
    assert_eq!(big("1208925819614629174706176", None), "1 YiB");
    assert_eq!(big("1237940039285380274899124224", None), "1024 YiB");
    assert!(big("99999999999999999999999999999999999999999", None).ends_with(" YiB"));
}

#[test]
fn bounded_ceiling_is_eib() {
    assert_eq!(small("1152921504606846976", None), "1 EiB");
    assert_eq!(small("9223372036854775807", None), "8.00 EiB");
}

#[test]
fn bounded_refuses_zib_and_yib() {
    assert_eq!(
        bounded::human_size("1024", Some(Unit::ZiB)),
        Err(SizeError::UnsupportedUnit(Unit::ZiB))
    );
    assert_eq!(
        bounded::human_size("1024", Some(Unit::YiB)),
        Err(SizeError::UnsupportedUnit(Unit::YiB))
    );
    assert_eq!(bounded::divisor(Unit::ZiB), Err(SizeError::UnsupportedUnit(Unit::ZiB)));
    assert_eq!(bounded::divisor(Unit::EiB), Ok(1152921504606846976));
    assert_eq!(
        bounded::convert(Unit::YiB, 5),
        Err(SizeError::UnsupportedUnit(Unit::YiB))
    );
}

#[test]
fn divisor_over_itself_is_one() {
    let units = [
        Unit::Bytes,
        Unit::KiB,
        Unit::MiB,
        Unit::GiB,
        Unit::TiB,
        Unit::PiB,
        Unit::EiB,
        Unit::ZiB,
        Unit::YiB,
    ];
    for unit in units {
        let text = unit.divisor().to_string();
        let expected = format!("1 {}", unit.name());
        assert_eq!(big(&text, None), expected);
        if unit.index() <= 6 {
            assert_eq!(small(&text, None), expected);
        }
    }
}

#[test]
fn piped_line_takes_precedence() {
    let a = args(&["prog", "5"]);
    assert_eq!(number_text(Some("2048\n"), &a), Some("2048".to_string()));
    assert_eq!(number_text(Some("2048\r\n"), &a), Some("2048".to_string()));
    assert_eq!(number_text(Some("\n"), &a), Some("5".to_string()));
    assert_eq!(number_text(Some(""), &a), Some("5".to_string()));
    assert_eq!(number_text(None, &a), Some("5".to_string()));
    assert_eq!(number_text(None, &args(&["prog", "k", "7"])), Some("7".to_string()));
    assert_eq!(number_text(None, &args(&["prog"])), None);
    assert_eq!(number_text(None, &args(&["prog", "a", "b", "c"])), None);
    assert_eq!(number_text(Some("9"), &args(&["prog"])), Some("9".to_string()));
}

#[test]
fn unit_argument_shapes() {
    assert_eq!(requested_unit(&args(&["prog", "k"])), Some(Unit::KiB));
    assert_eq!(requested_unit(&args(&["prog", "m", "5"])), Some(Unit::MiB));
    assert_eq!(requested_unit(&args(&["prog", "5"])), None);
    assert_eq!(requested_unit(&args(&["prog", "5", "k"])), None);
    assert_eq!(requested_unit(&args(&["prog"])), None);
}

#[test]
fn unit_codes() {
    assert_eq!(Unit::from_code("k"), Some(Unit::KiB));
    assert_eq!(Unit::from_code("m"), Some(Unit::MiB));
    assert_eq!(Unit::from_code("g"), Some(Unit::GiB));
    assert_eq!(Unit::from_code("t"), Some(Unit::TiB));
    assert_eq!(Unit::from_code("p"), Some(Unit::PiB));
    assert_eq!(Unit::from_code("e"), Some(Unit::EiB));
    assert_eq!(Unit::from_code("z"), Some(Unit::ZiB));
    assert_eq!(Unit::from_code("y"), Some(Unit::YiB));
    assert_eq!(Unit::from_code("K"), None);
    assert_eq!(Unit::from_code("kk"), None);
    assert_eq!(Unit::from_code(""), None);
    assert_eq!(Unit::from_code("b"), None);
}

#[test]
fn unit_names_and_divisors() {
    assert_eq!(Unit::Bytes.name(), "bytes");
    assert_eq!(Unit::KiB.name(), "KiB");
    assert_eq!(Unit::YiB.name(), "YiB");
    assert_eq!(Unit::Bytes.divisor(), 1);
    assert_eq!(Unit::MiB.divisor(), 1048576);
    assert_eq!(Unit::YiB.divisor(), 1u128 << 80);
    assert_eq!(Unit::from_ordinal(3), Unit::GiB);
    assert_eq!(Unit::select(1u128 << 70, Unit::YiB), Unit::ZiB);
    assert_eq!(Unit::select(1u128 << 70, Unit::EiB), Unit::EiB);
}

#[test]
fn auto_selection_in_each_domain() {
    assert_eq!(bounded::auto_unit(-5), Unit::Bytes);
    assert_eq!(bounded::auto_unit(1073741824), Unit::GiB);
    let m = Magnitude::parse("1073741823").unwrap();
    assert_eq!(unbounded::auto_unit(&m), Unit::MiB);
    let huge = Magnitude::parse("340282366920938463463374607431768211456").unwrap();
    assert_eq!(unbounded::auto_unit(&huge), Unit::YiB);
    assert_eq!(huge.low_value(), None);
    assert_eq!(m.low_value(), Some(1073741823));
    assert_eq!(unbounded::resolve_unit(Some(Unit::KiB), &m), Unit::KiB);
    assert_eq!(bounded::resolve_unit(None, 2048), Unit::KiB);
}

#[test]
fn parse_errors() {
    assert!(matches!(unbounded::human_size("abc", None), Err(SizeError::Parse(_))));
    assert!(matches!(unbounded::human_size("", None), Err(SizeError::Parse(_))));
    assert!(matches!(unbounded::human_size("-5", None), Err(SizeError::Parse(_))));
    assert!(matches!(unbounded::human_size("_5", None), Err(SizeError::Parse(_))));
    assert!(matches!(bounded::human_size("abc", None), Err(SizeError::Parse(_))));
    assert!(matches!(
        bounded::human_size("9223372036854775808", None),
        Err(SizeError::Parse(_))
    ));
    assert!(matches!(bounded::human_size("1_024", None), Err(SizeError::Parse(_))));
    assert_eq!(
        unbounded::human_size("x", None),
        Err(SizeError::Parse("invalid digit found in string".to_string()))
    );
}

#[test]
fn accepted_number_forms() {
    assert_eq!(big("+2048", None), "2 KiB");
    assert_eq!(big("1_024", None), "1 KiB");
    assert_eq!(small("+2048", None), "2 KiB");
    assert_eq!(small("-5", None), "-5 bytes");
}

#[test]
fn convert_divides_by_the_unit() {
    let m = Magnitude::parse("3145728").unwrap();
    assert_eq!(unbounded::convert(Unit::MiB, &m), "3 MiB");
    assert_eq!(unbounded::convert(Unit::GiB, &m), "0.003 GiB");
    assert_eq!(bounded::convert(Unit::MiB, 3145728), Ok("3 MiB".to_string()));
    assert_eq!(bounded::convert(Unit::KiB, 1537), Ok("1.50 KiB".to_string()));
}
