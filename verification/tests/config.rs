use eleanor::config::{bool_or, u32_or, Source, Value};
use eleanor::error::{EleanorError, Report};

fn text(value: &str) -> Option<Value> {
    Some(Value::Text(value.to_string()))
}

#[test]
fn an_entry_with_a_number_and_a_text_is_a_source() {
    let made = Source::from_values("local".to_string(), Some(Value::Integer(4)), text("/music")).unwrap();
    assert_eq!((made.id, made.name.as_str(), made.path.as_str()), (4, "local", "/music"));
    let zero = Source::from_values(String::new(), Some(Value::Integer(0)), text("")).unwrap();
    assert_eq!((zero.id, zero.name.as_str(), zero.path.as_str()), (0, "", ""));
    let top = Source::from_values("top".to_string(), Some(Value::Integer(0xffff_ffff)), text("/")).unwrap();
    assert_eq!(top.id, u32::MAX);
}

#[test]
fn an_entry_without_a_usable_id_is_no_source() {
    for (id, expected) in [
        (None, EleanorError::MietteError(Report::MissingSourceId)),
        (text("4"), EleanorError::MietteError(Report::SourceIdNotNumber)),
        (Some(Value::Fraction), EleanorError::MietteError(Report::SourceIdNotNumber)),
        (Some(Value::Bool(true)), EleanorError::MietteError(Report::SourceIdNotNumber)),
        (Some(Value::Null), EleanorError::MietteError(Report::SourceIdNotNumber)),
        (Some(Value::Integer(-1)), EleanorError::TryFromIntError),
        (Some(Value::Integer(0x1_0000_0000)), EleanorError::TryFromIntError),
        (Some(Value::Integer(i64::MIN)), EleanorError::TryFromIntError),
        (Some(Value::Integer(i64::MAX)), EleanorError::TryFromIntError),
    ] {
        assert_eq!(Source::from_values("s".to_string(), id, text("/music")).unwrap_err(), expected);
    }
}

#[test]
fn an_entry_without_a_usable_path_is_no_source() {
    for (path, expected) in [
        (None, Report::MissingSourcePath),
        (Some(Value::Integer(1)), Report::SourcePathNotText),
        (Some(Value::Fraction), Report::SourcePathNotText),
        (Some(Value::Bool(false)), Report::SourcePathNotText),
        (Some(Value::Null), Report::SourcePathNotText),
    ] {
        assert_eq!(
            Source::from_values("s".to_string(), Some(Value::Integer(1)), path).unwrap_err(),
            EleanorError::MietteError(expected),
        );
    }
}

#[test]
fn the_id_is_looked_at_before_the_path() {
    assert_eq!(
        Source::from_values("s".to_string(), None, None).unwrap_err(),
        EleanorError::MietteError(Report::MissingSourceId),
    );
    assert_eq!(
        Source::from_values("s".to_string(), Some(Value::Integer(-1)), None).unwrap_err(),
        EleanorError::TryFromIntError,
    );
}

#[test]
fn a_setting_that_is_missing_or_of_another_kind_gives_the_default() {
    assert_eq!(u32_or(Some(&Value::Integer(7)), 5), 7);
    assert_eq!(u32_or(Some(&Value::Integer(0)), 5), 0);
    assert_eq!(u32_or(Some(&Value::Integer(0xffff_ffff)), 5), u32::MAX);
    assert_eq!(u32_or(Some(&Value::Integer(-1)), 5), 5);
    assert_eq!(u32_or(Some(&Value::Integer(0x1_0000_0000)), 5), 5);
    assert_eq!(u32_or(Some(&Value::Bool(true)), 5), 5);
    assert_eq!(u32_or(Some(&Value::Text("7".to_string())), 5), 5);
    assert_eq!(u32_or(Some(&Value::Fraction), 5), 5);
    assert_eq!(u32_or(Some(&Value::Null), 5), 5);
    assert_eq!(u32_or(None, 5), 5);
    assert!(bool_or(Some(&Value::Bool(true)), false));
    assert!(!bool_or(Some(&Value::Bool(false)), true));
    assert!(bool_or(Some(&Value::Integer(0)), true));
    assert!(!bool_or(Some(&Value::Text("true".to_string())), false));
    assert!(bool_or(None, true));
    assert!(!bool_or(None, false));
}
