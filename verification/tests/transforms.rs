use doc_spelling_ls::rules::{Flag, Transform, TransformParseError};

#[test]
fn parse_transform() {
    assert_eq!(
        Transform::from_str(r"/^\s*\* ?//m").unwrap(),
        Transform {
            regex: r"^\s*\* ?".as_bytes().to_vec(),
            replace: Vec::new(),
            flags: vec![Flag::Multiline]
        }
    );
}

#[test]
fn parse_transform_sections() {
    let t = Transform::from_str("/ab/cd/bm").unwrap();
    assert_eq!(t.regex, b"ab".to_vec());
    assert_eq!(t.replace, b"cd".to_vec());
    assert_eq!(t.flags, vec![Flag::Break, Flag::Multiline]);
}

#[test]
fn parse_transform_escaped_slash() {
    let t = Transform::from_str(r"/a\/b//").unwrap();
    assert_eq!(t.regex, b"a/b".to_vec());
    assert_eq!(t.replace, Vec::new());
    assert_eq!(t.flags, Vec::new());
}

#[test]
fn parse_transform_missing_leading_slash() {
    assert_eq!(
        Transform::from_str("abc"),
        Err(TransformParseError::MissingLeadingSlash)
    );
    assert_eq!(
        Transform::from_str(""),
        Err(TransformParseError::MissingLeadingSlash)
    );
}

#[test]
fn parse_transform_extra_slash() {
    assert_eq!(
        Transform::from_str("/a/b/m/"),
        Err(TransformParseError::ExtraSlash)
    );
}

#[test]
fn parse_transform_invalid_flag() {
    assert_eq!(
        Transform::from_str("/a/b/x"),
        Err(TransformParseError::InvalidFlag(b'x'))
    );
}

#[test]
fn flag_from_bytes() {
    assert_eq!(Flag::try_from(b'b'), Some(Flag::Break));
    assert_eq!(Flag::try_from(b'm'), Some(Flag::Multiline));
    assert_eq!(Flag::try_from(b'q'), None);
}
