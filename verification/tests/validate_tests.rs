use class_file::validate::{validate, Elem, Elems};

#[test]
fn test1() {
    let elems = Elems {
        list: vec![
            Elem::Atomic { value: Ok(()) },
            Elem::Ref { index: 0 },
        ],
    };
    assert_eq!(validate(&elems), Ok(()))
}

#[test]
fn test2() {
    let elems = Elems {
        list: vec![
            Elem::Ref { index: 0 },
        ],
    };
    assert_eq!(validate(&elems), Err("circular reference found! ref: 0".to_string()))
}

#[test]
fn test3() {
    let elems = Elems {
        list: vec![
            Elem::Ref { index: 1 },
            Elem::Ref { index: 0 },
        ],
    };
    assert_eq!(validate(&elems), Err("circular reference found! ref: 1".to_string()))
}

#[test]
fn test4() {
    let elems = Elems {
        list: vec![
            Elem::Atomic { value: Ok(()) },
            Elem::Atomic { value: Ok(()) },
            Elem::Ref2 { index1: 0, index2: 1 },
        ],
    };
    assert_eq!(validate(&elems), Ok(()))
}

#[test]
fn test5() {
    let elems = Elems {
        list: vec![
            Elem::Atomic { value: Ok(()) },
            Elem::Ref2 { index1: 0, index2: 1 },
        ],
    };
    assert_eq!(validate(&elems), Err("circular reference found! ref: 1".to_string()))
}

#[test]
fn failing_atomic_value_fails_the_run() {
    let elems = Elems {
        list: vec![
            Elem::Atomic { value: Err("broken".to_string()) },
        ],
    };
    assert_eq!(validate(&elems), Err("broken".to_string()))
}

#[test]
fn out_of_range_reference_fails_the_run() {
    let elems = Elems {
        list: vec![
            Elem::Ref { index: 7 },
        ],
    };
    assert_eq!(validate(&elems), Err("invalid reference found! ref: 7".to_string()))
}
