use class_file::descriptor::{parse_field_type, parse_method_descriptor, FieldType, MethodType, ReturnType};
use class_file::error::error;

#[test]
fn test_parse_field_type() {
    assert_eq!(
        parse_field_type("Z"),
        Ok(FieldType::Boolean)
    );
    assert_eq!(
        parse_field_type("Ljava/lang/String;"),
        Ok(FieldType::Class { name: "java/lang/String".to_string() })
    );
    assert_eq!(
        parse_field_type("[[[D"),
        Ok(FieldType::Array { value: Box::new(FieldType::Array { value: Box::new(FieldType::Array { value: Box::new(FieldType::Double) }) }) })
    );
    assert_eq!(
        parse_field_type("BBB"),
        error("invalid parameter descriptor: BBB".to_string())
    );
}

#[test]
fn test_parse_method_descriptor() {
    assert_eq!(
        parse_method_descriptor("(IDLjava/lang/Thread;)Ljava/lang/Object;"),
        Ok(MethodType {
            parameter_types: vec![
                FieldType::Int,
                FieldType::Double,
                FieldType::Class { name: "java/lang/Thread".to_string() },
            ],
            return_type: ReturnType::Field { value: FieldType::Class { name: "java/lang/Object".to_string() } },
        })
    );
    assert_eq!(
        parse_method_descriptor("(Ljava/lang/String;I)V"),
        Ok(MethodType {
            parameter_types: vec![
                FieldType::Class { name: "java/lang/String".to_string() },
                FieldType::Int,
            ],
            return_type: ReturnType::Void,
        })
    );
}

#[test]
fn no_partial_parse_is_accepted() {
    assert!(parse_field_type("").is_err());
    assert!(parse_field_type("[").is_err());
    assert!(parse_field_type("L;").is_err());
    assert!(parse_field_type("Ljava/lang/String").is_err());
    assert!(parse_field_type("IZ").is_err());
    assert!(parse_method_descriptor("").is_err());
    assert!(parse_method_descriptor("(I").is_err());
    assert!(parse_method_descriptor("(I)").is_err());
    assert!(parse_method_descriptor("(I)VV").is_err());
    assert!(parse_method_descriptor("I").is_err());
}

#[test]
fn every_primitive_code_maps_to_its_own_kind() {
    assert_eq!(parse_field_type("B"), Ok(FieldType::Byte));
    assert_eq!(parse_field_type("C"), Ok(FieldType::Char));
    assert_eq!(parse_field_type("D"), Ok(FieldType::Double));
    assert_eq!(parse_field_type("F"), Ok(FieldType::Float));
    assert_eq!(parse_field_type("I"), Ok(FieldType::Int));
    assert_eq!(parse_field_type("J"), Ok(FieldType::Long));
    assert_eq!(parse_field_type("S"), Ok(FieldType::Short));
    assert_eq!(parse_field_type("Z"), Ok(FieldType::Boolean));
}
