use jmespath::json::JsonError;
use jmespath::{Object, Variable};
use std::rc::Rc;

#[test]
fn json_text_becomes_a_value() {
    let v = Variable::from_json("{\"b\":[1,\"x\",null,true],\"a\":-5}").unwrap();
    let o = v.as_object().unwrap();
    assert_eq!(2, o.len());
    assert_eq!("a", o.key_at(0));
    assert_eq!("b", o.key_at(1));
    assert_eq!(&Rc::new(Variable::Number(-5)), o.value_at(0));
    assert_eq!(
        &vec![
            Rc::new(Variable::Number(1)),
            Rc::new(Variable::String("x".to_string())),
            Rc::new(Variable::Null),
            Rc::new(Variable::Bool(true)),
        ],
        o.value_at(1).as_array().unwrap()
    );
}

#[test]
fn json_refusals() {
    assert_eq!(Err(JsonError::Syntax), Variable::from_json("{"));
    assert_eq!(Err(JsonError::Syntax), Variable::from_json(""));
    assert_eq!(Err(JsonError::Number), Variable::from_json("[1, 2.5]"));
    assert_eq!(Err(JsonError::Number), Variable::from_json("18446744073709551615"));
    assert_eq!(
        Ok(Variable::Number(i64::MAX)),
        Variable::from_json("9223372036854775807")
    );
}

#[test]
fn values_are_written_as_json() {
    let text = "{\"a\":[1,-2,\"x\\ny\",null,false],\"b\":{}}";
    assert_eq!(text, Variable::from_json(text).unwrap().to_string());
    assert_eq!("null", Variable::Null.to_string());
    assert_eq!("\"a\"", Variable::String("a".to_string()).to_string());
    assert_eq!(
        "{\"a\":1,\"b\":2}",
        Variable::from_json("{\"b\":2,\"a\":1}").unwrap().to_string()
    );
}

#[test]
fn object_keeps_keys_ordered_and_unique() {
    let mut o = Object::new();
    o.insert("m".to_string(), Rc::new(Variable::Number(1)));
    o.insert("a".to_string(), Rc::new(Variable::Number(2)));
    o.insert("z".to_string(), Rc::new(Variable::Number(3)));
    o.insert("m".to_string(), Rc::new(Variable::Number(4)));
    o.insert("ab".to_string(), Rc::new(Variable::Number(5)));
    assert_eq!(4, o.len());
    assert_eq!("a", o.key_at(0));
    assert_eq!("ab", o.key_at(1));
    assert_eq!("m", o.key_at(2));
    assert_eq!("z", o.key_at(3));
    assert_eq!(Some(&Rc::new(Variable::Number(4))), o.get("m"));
    assert_eq!(None, o.get("q"));
}

#[test]
fn type_names_and_truthiness() {
    let cases = vec![
        ("null", "null", false),
        ("true", "boolean", true),
        ("false", "boolean", false),
        ("0", "number", true),
        ("\"\"", "string", false),
        ("\"a\"", "string", true),
        ("[]", "array", false),
        ("[null]", "array", true),
        ("{}", "object", false),
        ("{\"a\":null}", "object", true),
    ];
    for (json, name, truth) in cases {
        let v = Variable::from_json(json).unwrap();
        assert_eq!(name, v.get_type());
        assert_eq!(truth, v.is_truthy());
    }
}

#[test]
fn getters_answer_for_their_own_type_only() {
    let n = Variable::Number(3);
    assert_eq!(Some(3), n.as_number());
    assert_eq!(None, n.as_boolean());
    assert!(n.as_string().is_none());
    assert!(n.as_array().is_none());
    assert!(n.as_object().is_none());
    assert!(!n.is_null());
    assert!(Variable::Null.is_null());
    assert_eq!(Some(true), Variable::Bool(true).as_boolean());
    assert_eq!(
        Some(&"s".to_string()),
        Variable::String("s".to_string()).as_string()
    );
}

#[test]
fn strings_order_by_code_point() {
    assert!(jmespath::variable::text_less("a", "b"));
    assert!(jmespath::variable::text_less("a", "ab"));
    assert!(jmespath::variable::text_less("", "a"));
    assert!(jmespath::variable::text_less("Z", "a"));
    assert!(!jmespath::variable::text_less("a", "a"));
    assert!(!jmespath::variable::text_less("b", "a"));
    assert!(!jmespath::variable::text_less("ab", "a"));
    assert!(jmespath::variable::text_less("z", "\u{e9}"));
}
