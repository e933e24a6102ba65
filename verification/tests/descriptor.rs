use classpool::descriptor::{parse_field_descriptor, BaseType, FieldDescriptor, ScalarDescriptor};
use classpool::error::LoadError;

fn parse(s: &[u8]) -> Result<FieldDescriptor, LoadError> {
    parse_field_descriptor(&s.to_vec())
}

#[test]
fn primitive_int_parses() {
    assert_eq!(
        parse(b"I"),
        Ok(FieldDescriptor::Scalar(ScalarDescriptor::Base(BaseType::Int)))
    );
}

#[test]
fn every_base_letter_parses() {
    let cases: [(&[u8], BaseType); 8] = [
        (b"B", BaseType::Byte),
        (b"C", BaseType::Char),
        (b"D", BaseType::Double),
        (b"F", BaseType::Float),
        (b"I", BaseType::Int),
        (b"J", BaseType::Long),
        (b"S", BaseType::Short),
        (b"Z", BaseType::Boolean),
    ];
    for (s, base) in cases {
        assert_eq!(parse(s), Ok(FieldDescriptor::Scalar(ScalarDescriptor::Base(base))));
    }
}

#[test]
fn array_of_class_parses() {
    assert_eq!(
        parse(b"[Ljava/lang/String;"),
        Ok(FieldDescriptor::Array {
            dimensions: 1,
            element: ScalarDescriptor::Object(b"java/lang/String".to_vec()),
        })
    );
}

#[test]
fn class_reference_parses() {
    assert_eq!(
        parse(b"Ljava/lang/Object;"),
        Ok(FieldDescriptor::Scalar(ScalarDescriptor::Object(
            b"java/lang/Object".to_vec()
        )))
    );
}

#[test]
fn nested_array_dimensions_count() {
    assert_eq!(
        parse(b"[[[I"),
        Ok(FieldDescriptor::Array { dimensions: 3, element: ScalarDescriptor::Base(BaseType::Int) })
    );
}

#[test]
fn trailing_input_is_malformed() {
    assert_eq!(parse(b"I["), Err(LoadError::MalformedDescriptor));
    assert_eq!(parse(b"II"), Err(LoadError::MalformedDescriptor));
    assert_eq!(parse(b"Ljava/lang/Object;;"), Err(LoadError::MalformedDescriptor));
}

#[test]
fn incomplete_input_is_malformed() {
    assert_eq!(parse(b""), Err(LoadError::MalformedDescriptor));
    assert_eq!(parse(b"["), Err(LoadError::MalformedDescriptor));
    assert_eq!(parse(b"L"), Err(LoadError::MalformedDescriptor));
    assert_eq!(parse(b"L;"), Err(LoadError::MalformedDescriptor));
    assert_eq!(parse(b"Ljava/lang/Object"), Err(LoadError::MalformedDescriptor));
    assert_eq!(parse(b"X"), Err(LoadError::MalformedDescriptor));
}

#[test]
fn dimension_limit_is_enforced() {
    let mut ok = vec![b'['; 255];
    ok.push(b'I');
    assert!(matches!(
        parse_field_descriptor(&ok),
        Ok(FieldDescriptor::Array { dimensions: 255, .. })
    ));
    let mut too_deep = vec![b'['; 256];
    too_deep.push(b'I');
    assert_eq!(parse_field_descriptor(&too_deep), Err(LoadError::MalformedDescriptor));
}
