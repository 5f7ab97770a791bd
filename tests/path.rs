use dynamodb_expression::path::{Element, IndexedField, Path, PathParseError};

#[test]
fn parse_path() {
    let path: Path = "foo".parse().unwrap();
    assert_eq!(Path::from_element(Element::name("foo")), path);

    let path: Path = "foo[0]".parse().unwrap();
    assert_eq!(Path::from_element(Element::indexed_field("foo", vec![0])), path);

    let path: Path = "foo[0][3]".parse().unwrap();
    assert_eq!(Path::from_element(Element::indexed_field("foo", vec![0, 3])), path);

    let path: Path = "foo[42][37][9]".parse().unwrap();
    assert_eq!(Path::from_element(Element::indexed_field("foo", vec![42, 37, 9])), path);

    let path: Path = "foo.bar".parse().unwrap();
    assert_eq!(Path::from_elements(vec![Element::name("foo"), Element::name("bar")]), path);

    let path: Path = "foo[42].bar".parse().unwrap();
    assert_eq!(
        Path::from_elements(vec![Element::indexed_field("foo", 42u32), Element::name("bar")]),
        path
    );

    let path: Path = "foo.bar[37]".parse().unwrap();
    assert_eq!(
        Path::from_elements(vec![Element::name("foo"), Element::indexed_field("bar", 37u32)]),
        path
    );

    let path: Path = "foo[42].bar[37]".parse().unwrap();
    assert_eq!(
        Path::from_elements(vec![
            Element::indexed_field("foo", 42u32),
            Element::indexed_field("bar", 37u32)
        ]),
        path
    );

    let path: Path = "foo[42][7].bar[37]".parse().unwrap();
    assert_eq!(
        Path::from_elements(vec![
            Element::indexed_field("foo", vec![42, 7]),
            Element::indexed_field("bar", 37u32)
        ]),
        path
    );

    let path: Path = "foo[42].bar[37][9]".parse().unwrap();
    assert_eq!(
        Path::from_elements(vec![
            Element::indexed_field("foo", 42u32),
            Element::indexed_field("bar", vec![37, 9])
        ]),
        path
    );

    let path: Path = "foo[42][7].bar[37][9]".parse().unwrap();
    assert_eq!(
        Path::from_elements(vec![
            Element::indexed_field("foo", vec![42, 7]),
            Element::indexed_field("bar", vec![37, 9])
        ]),
        path
    );

    for prefix in ["foo", "foo[0]", "foo.bar", "foo[0]bar", "foo[0]bar[1]"] {
        for bad_index in ["[9", "[]", "][", "[", "]"] {
            let input = format!("{prefix}{bad_index}");

            match input.parse::<Path>() {
                Ok(path) => {
                    panic!("Should not have parsed invalid input {input:?} into: {path:?}");
                }
                Err(PathParseError) => { /* Got the expected error */ }
            }
        }
    }

    // A few other odds and ends
    "foo[0]bar".parse::<Path>().unwrap_err();
    "foo[0]bar[3]".parse::<Path>().unwrap_err();
    "[0]".parse::<Path>().unwrap_err();
}

#[test]
fn express_path() {
    let _: IndexedField = IndexedField::new("foo", vec![0]);
    let _: Element = Element::indexed_field("foo", 0u32);
    let _: Path = Path::from_element(Element::indexed_field("foo", 0u32));
}

#[test]
fn display_name() {
    let path = Element::name("foo");
    assert_eq!("foo", path.to_string());
}

#[test]
fn display_indexed() {
    let path = Element::indexed_field("foo", 42u32);
    assert_eq!("foo[42]", path.to_string());

    let path = Element::indexed_field("foo", vec![42]);
    assert_eq!("foo[42]", path.to_string());

    let path = Element::indexed_field("foo", vec![42, 37, 9]);
    assert_eq!("foo[42][37][9]", path.to_string());
}

#[test]
fn display_path() {
    let path = Path::from_elements(vec![Element::name("foo"), Element::name("bar")]);
    assert_eq!("foo.bar", path.to_string());

    let path = Path::from_elements(vec![Element::name("foo"), Element::indexed_field("bar", 42u32)]);
    assert_eq!("foo.bar[42]", path.to_string());

    let path = Path::from_elements(vec![Element::indexed_field("foo", 42u32), Element::name("bar")]);
    assert_eq!("foo[42].bar", path.to_string());
}

#[test]
fn indexed_path_renders_and_parses_back() {
    let path = Path::from_elements(vec![
        Element::indexed_field("foo", vec![3, 7]),
        Element::indexed_field("bar", 2u32),
        Element::name("baz"),
    ]);
    assert_eq!("foo[3][7].bar[2].baz", path.to_string());
    assert_eq!(Path::parse("foo[3][7].bar[2].baz"), Ok(path));
}

#[test]
fn empty_index_list_is_a_plain_name() {
    assert_eq!(Element::indexed_field("foo", Vec::new()), Element::name("foo"));
    let field = IndexedField::new("foo", Vec::new());
    assert_eq!(Element::from_field(field), Element::name("foo"));
}

#[test]
fn index_spellings_read_as_numbers() {
    let path = Path::parse("a[007].b[+5]").unwrap();
    assert_eq!("a[7].b[5]", path.to_string());
    assert_eq!(Path::parse(&path.to_string()), Ok(path));
    assert_eq!(Path::parse("a[4294967295]").unwrap().to_string(), "a[4294967295]");
    assert!(Path::parse("a[4294967296]").is_err());
    assert!(Path::parse("a[-1]").is_err());
}

#[test]
fn odd_but_accepted_paths() {
    assert_eq!(Path::parse("").unwrap().to_string(), "");
    assert_eq!(Path::parse("a..b").unwrap().to_string(), "a..b");
    assert!(Path::parse("a.[1]").is_err());
    assert!(Path::parse("a[1.2]").is_err());
}

#[test]
fn paths_compare_by_segments() {
    let a = Path::parse("x[1].y").unwrap();
    let b = Path::from_elements(vec![Element::indexed_field("x", 1u32), Element::name("y")]);
    let c = Path::parse("x[2].y").unwrap();
    assert!(a.same_as(&b));
    assert!(!a.same_as(&c));
}

#[test]
fn parse_single_element() {
    assert_eq!(Element::parse("foo[1][2]"), Ok(Element::indexed_field("foo", vec![1, 2])));
    assert_eq!("bar".parse::<Element>(), Ok(Element::name("bar")));
    assert_eq!(Element::parse("a.b"), Ok(Element::name("a.b")));
    assert_eq!(Element::parse("a.b[0]"), Ok(Element::indexed_field("a.b", vec![0])));
    assert_eq!(Element::parse(""), Ok(Element::name("")));
    assert_eq!(Element::parse("a[x]"), Err(PathParseError));
    assert_eq!(Element::parse("a[0].b"), Err(PathParseError));
    assert_eq!(Element::parse("a[0.5]"), Err(PathParseError));
    assert_eq!(Element::parse("[0]"), Err(PathParseError));
    assert_eq!(Element::parse("foo]["), Err(PathParseError));
    assert_eq!(Element::parse("foo[0]bar"), Err(PathParseError));
}
