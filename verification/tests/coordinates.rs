use jmespath::Coordinates;

#[test]
fn coordinates_can_be_created_from_string_with_new_lines() {
    let expr = "foo\n..bar";
    let coords = Coordinates::from_offset(expr, 5);
    assert_eq!(1, coords.line);
    assert_eq!(1, coords.column);
    assert_eq!(5, coords.offset);
    assert_eq!("foo\n..bar\n ^\n", coords.expression_with_carat(expr));
}

#[test]
fn coordinates_can_be_created_from_string_with_new_lines_pointing_to_non_last() {
    let expr = "foo\n..bar\nbaz";
    let coords = Coordinates::from_offset(expr, 5);
    assert_eq!(1, coords.line);
    assert_eq!(1, coords.column);
    assert_eq!(5, coords.offset);
    assert_eq!("foo\n..bar\n ^\nbaz", coords.expression_with_carat(expr));
}

#[test]
fn coordinates_can_be_created_from_string_with_no_new_lines() {
    let expr = "foo..bar";
    let coords = Coordinates::from_offset(expr, 4);
    assert_eq!(0, coords.line);
    assert_eq!(4, coords.column);
    assert_eq!(4, coords.offset);
    assert_eq!("foo..bar\n    ^\n", coords.expression_with_carat(expr));
}
