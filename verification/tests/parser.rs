use sic::parser::{parse_image_operations, Operation, ParseErrorKind};

#[test]
fn test_blur_single_stmt_parse_correct() {
    let ops = parse_image_operations(b"blur 15;")
        .unwrap_or_else(|e| panic!("Unable to parse sic image operations script: {:?}", e));
    assert_eq!(vec![Operation::Blur(15)], ops);
}

#[test]
fn test_flip_horizontal_single_stmt_parse_correct() {
    let ops = parse_image_operations(b"flip_horizontal;")
        .unwrap_or_else(|e| panic!("Unable to parse sic image operations script: {:?}", e));
    assert_eq!(vec![Operation::FlipHorizontal], ops);
}

#[test]
fn test_flip_vertical_single_stmt_parse_correct() {
    let ops = parse_image_operations(b"flip_vertical;")
        .unwrap_or_else(|e| panic!("Unable to parse sic image operations script: {:?}", e));
    assert_eq!(vec![Operation::FlipVertical], ops);
}

#[test]
fn test_resize_single_stmt_parse_correct() {
    let ops = parse_image_operations(b"resize 99 88;")
        .unwrap_or_else(|e| panic!("Unable to parse sic image operations script: {:?}", e));
    assert_eq!(vec![Operation::Resize(99, 88)], ops);
}

#[test]
fn test_multi_stmt_parse_correct() {
    let ops = parse_image_operations(b"blur 10;flip_horizontal;flip_vertical;resize 100 200;")
        .unwrap_or_else(|e| panic!("Unable to parse sic image operations script: {:?}", e));
    assert_eq!(
        vec![
            Operation::Blur(10),
            Operation::FlipHorizontal,
            Operation::FlipVertical,
            Operation::Resize(100, 200)
        ],
        ops
    );
}

#[test]
fn test_multi_stmt_parse_diff_order_correct() {
    let ops = parse_image_operations(b"flip_horizontal;flip_vertical;resize 100 200;blur 10;")
        .unwrap_or_else(|e| panic!("Unable to parse sic image operations script: {:?}", e));
    assert_eq!(
        vec![
            Operation::FlipHorizontal,
            Operation::FlipVertical,
            Operation::Resize(100, 200),
            Operation::Blur(10)
        ],
        ops
    );
}

#[test]
fn test_multi_whitespace() {
    let ops = parse_image_operations(b"flip_horizontal; flip_vertical; resize 100 200; blur 10;")
        .unwrap_or_else(|e| panic!("Unable to parse sic image operations script: {:?}", e));
    assert_eq!(
        vec![
            Operation::FlipHorizontal,
            Operation::FlipVertical,
            Operation::Resize(100, 200),
            Operation::Blur(10)
        ],
        ops
    );
}

#[test]
fn test_multi_whitespace_2() {
    let ops = parse_image_operations(
        b"flip_horizontal    ; flip_vertical   ;   \t\t resize 100 200; blur 10;",
    )
    .unwrap_or_else(|e| panic!("Unable to parse sic image operations script: {:?}", e));
    assert_eq!(
        vec![
            Operation::FlipHorizontal,
            Operation::FlipVertical,
            Operation::Resize(100, 200),
            Operation::Blur(10)
        ],
        ops
    );
}

#[test]
fn test_multi_whitespace_3() {
    let ops = parse_image_operations(b"flip_horizontal;\nflip_vertical;\nresize 100 200;\n\tblur 10;")
        .unwrap_or_else(|e| panic!("Unable to parse sic image operations script: {:?}", e));
    assert_eq!(
        vec![
            Operation::FlipHorizontal,
            Operation::FlipVertical,
            Operation::Resize(100, 200),
            Operation::Blur(10)
        ],
        ops
    );
}

#[test]
#[should_panic]
fn test_multi_should_end_with_sep() {
    let ops = parse_image_operations(b"flip_horizontal; flip_vertical; resize 100 200; blur 10")
        .unwrap_or_else(|e| panic!("Unable to parse sic image operations script: {:?}", e));
    assert_eq!(
        vec![
            Operation::FlipHorizontal,
            Operation::FlipVertical,
            Operation::Resize(100, 200),
            Operation::Blur(10)
        ],
        ops
    );
}

#[test]
fn test_crop_stmt_parse_correct() {
    let ops = parse_image_operations(b"crop 1 2 30 40;")
        .unwrap_or_else(|e| panic!("Unable to parse sic image operations script: {:?}", e));
    assert_eq!(vec![Operation::Crop(1, 2, 30, 40)], ops);
}

#[test]
fn test_empty_script_parses_to_no_operations() {
    let ops = parse_image_operations(b"").unwrap();
    assert_eq!(Vec::<Operation>::new(), ops);
    let ops = parse_image_operations(b"  \n\t ").unwrap();
    assert_eq!(Vec::<Operation>::new(), ops);
}

#[test]
fn test_unknown_statement_is_rejected() {
    let err = parse_image_operations(b"blur 1; sharpen 2;").unwrap_err();
    assert_eq!(ParseErrorKind::UnknownOperation, err.kind);
    assert_eq!(8, err.pos);
}

#[test]
fn test_number_out_of_range_is_rejected() {
    let err = parse_image_operations(b"blur 4294967296;").unwrap_err();
    assert_eq!(ParseErrorKind::NumberOutOfRange, err.kind);
    assert_eq!(0, err.pos);
    let ops = parse_image_operations(b"blur 4294967295;").unwrap();
    assert_eq!(vec![Operation::Blur(4294967295)], ops);
}

#[test]
fn test_non_numeric_argument_is_rejected() {
    let err = parse_image_operations(b"blur abc;").unwrap_err();
    assert_eq!(ParseErrorKind::InvalidNumber, err.kind);
    let err = parse_image_operations(b"resize 100;").unwrap_err();
    assert_eq!(ParseErrorKind::InvalidNumber, err.kind);
}

#[test]
fn test_bare_separator_is_rejected() {
    let err = parse_image_operations(b";;").unwrap_err();
    assert_eq!(ParseErrorKind::EmptyStatement, err.kind);
}

#[test]
fn test_reparse_identical_text_yields_equal_operations() {
    let script: &[u8] = b"blur 10;flip_horizontal;resize 100 200;";
    let first = parse_image_operations(script).unwrap();
    let second = parse_image_operations(script).unwrap();
    assert_eq!(first, second);
}
