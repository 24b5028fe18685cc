use snakedown::indexing::content::{
    parse_contents, reference, text_node, ContentError, ContentNode, Reference,
};

#[test]
fn test_empty_string() {
    let mut input = "";
    let content = parse_contents(&mut input);

    assert_eq!(content, Ok(vec![]));
}

#[test]
fn test_only_ref() -> Result<(), ContentError> {
    let mut input = "[[foo.bar]]";
    let content = reference(&mut input)?;

    assert_eq!(
        content,
        ContentNode::Reference(Reference::new("foo.bar".to_string(), None))
    );
    Ok(())
}

#[test]
fn test_starts_with_text_has_ref() {
    let mut input = "lorem ipsum. [[foo.bar]]";
    let content = parse_contents(&mut input);

    assert_eq!(
        content,
        Ok(vec![
            ContentNode::Text(String::from("lorem ipsum. ")),
            ContentNode::Reference(Reference::new(String::from("foo.bar"), None)),
        ])
    );
}

#[test]
fn test_starts_with_reference_has_text() {
    let mut input = "[[foo.bar]] lorem ipsum.";
    let content = parse_contents(&mut input);

    assert_eq!(
        content,
        Ok(vec![
            ContentNode::Reference(Reference::new(String::from("foo.bar"), None)),
            ContentNode::Text(String::from(" lorem ipsum."))
        ])
    );
}

#[test]
fn test_text() {
    let mut input = "lorem ipsum.";
    let content = parse_contents(&mut input);

    assert_eq!(
        content,
        Ok(vec![ContentNode::Text(String::from("lorem ipsum."))])
    );
}

#[test]
fn test_nasty_non_reference() {
    let mut input = r#"[[foo == bar] = baz]"#;
    let content = text_node(&mut input);

    assert_eq!(
        content,
        Ok(ContentNode::Text(String::from(r#"[[foo == bar] = baz]"#)))
    );
}

#[test]
fn test_full_docstring() {
    let mut input = r#"
Generate a greeting message. This is a method on the [[test_pkg.bar.Greeter]] class.
It is distinct from the [[test_pkg.bar.greet]] function.

Returns:
    str: Greeting message.

See Also:
    [[ foo.bar ]]
    [[ bar.baz ]]
    [[ arf.mew ]]
"#;
    let content = parse_contents(&mut input);

    assert_eq!(
        content,
        Ok(vec![
            ContentNode::Text(String::from(
                r#"
Generate a greeting message. This is a method on the "#
            )),
            ContentNode::Reference(Reference::new(String::from("test_pkg.bar.Greeter"), None)),
            ContentNode::Text(String::from(
                r#" class.
It is distinct from the "#
            )),
            ContentNode::Reference(Reference::new(String::from("test_pkg.bar.greet"), None)),
            ContentNode::Text(String::from(
                r#" function.

Returns:
    str: Greeting message.

See Also:
    "#
            )),
            ContentNode::Reference(Reference::new(String::from("foo.bar"), None)),
            ContentNode::Text(String::from(
                r#"
    "#
            )),
            ContentNode::Reference(Reference::new(String::from("bar.baz"), None)),
            ContentNode::Text(String::from(
                r#"
    "#
            )),
            ContentNode::Reference(Reference::new(String::from("arf.mew"), None)),
            ContentNode::Text(String::from(
                r#"
"#
            )),
        ])
    );
}

#[test]
fn test_ref_with_interneal_newline() {
    let mut input = r#"[[foo.
bar]]lorem ipsum"#;
    let content = parse_contents(&mut input);

    assert_eq!(
        content,
        Ok(vec![ContentNode::Text(String::from(
            "[[foo.\nbar]]lorem ipsum"
        ))])
    );
}

#[test]
fn test_nasty() {
    let mut input = r#"[[], None]
just a r▐
andom closure to make the types interesting to render."#;
    let content = parse_contents(&mut input);

    assert_eq!(
        content,
        Ok(vec![ContentNode::Text(String::from(
            "[[], None]\njust a r▐\nandom closure to make the types interesting to render."
        ))])
    );
}

#[test]
fn reference_parsing() -> Result<(), ContentError> {
    let mut test_text = r#"
    mod {test}
    [[]]
[[greeter]]
[[foo.bar]]
[[_foo.bar]]
[[_foo]]
[[_]]
[[asdf.asdf.asdf|display text]]
[[       foo.bar     ]]
[[      asdf.asdf.asdf       |     |||display text|||      ]]
idx[[foo == bar] = baz]
asdlkfj;alskdj;alsdkj
askdfjoiw3fmxj,cavuiw43i
        "#;

    let expected_refs = vec![
        ("", None),
        ("greeter", None),
        ("foo.bar", None),
        ("_foo.bar", None),
        ("_foo", None),
        ("_", None),
        ("asdf.asdf.asdf", Some("display text".to_string())),
        ("foo.bar", None),
        ("asdf.asdf.asdf", Some("|||display text|||".to_string())),
    ]
    .into_iter()
    .map(|tup| ContentNode::Reference(Reference::new(tup.0.to_owned(), tup.1)))
    .collect::<Vec<ContentNode>>();

    let found_refs: Vec<_> = parse_contents(&mut test_text)?
        .into_iter()
        .filter(|n| matches!(n, ContentNode::Reference(_)))
        .collect();

    assert_eq!(expected_refs, found_refs);

    Ok(())
}

#[test]
fn parsing_consumes_the_whole_input() {
    let mut input = "abc [[x]] def";
    let _ = parse_contents(&mut input);
    assert_eq!(input, "");
}

#[test]
fn reference_advances_past_the_reference() {
    let mut input = "[[a | shown ]] rest";
    let node = reference(&mut input);
    assert_eq!(
        node,
        Ok(ContentNode::Reference(Reference::new(
            "a".to_string(),
            Some("shown".to_string())
        )))
    );
    assert_eq!(input, " rest");
}

#[test]
fn reference_refuses_text() {
    let mut input = "no reference [[a]]";
    assert_eq!(reference(&mut input), Err(ContentError::NoMatch));
    assert_eq!(input, "no reference [[a]]");
}

#[test]
fn text_node_stops_before_reference() {
    let mut input = "abc[[d]]";
    assert_eq!(text_node(&mut input), Ok(ContentNode::Text("abc".to_string())));
    assert_eq!(input, "[[d]]");
}

#[test]
fn reference_ends_at_first_closing_pair() {
    let mut input = "[[a]]]";
    assert_eq!(
        parse_contents(&mut input),
        Ok(vec![
            ContentNode::Reference(Reference::new("a".to_string(), None)),
            ContentNode::Text("]".to_string()),
        ])
    );
}

#[test]
fn unicode_white_space_is_trimmed() {
    let mut input = "[[\u{3000}name\u{a0}|\tshown\u{2003}]]";
    assert_eq!(
        parse_contents(&mut input),
        Ok(vec![ContentNode::Reference(Reference::new(
            "name".to_string(),
            Some("shown".to_string())
        ))])
    );
}

#[test]
fn original_writes_reference_syntax() {
    let plain = Reference::new("foo.bar".to_string(), None);
    assert_eq!(plain.original(), "[[foo.bar]]");
    let shown = Reference::new("foo.bar".to_string(), Some("the bar".to_string()));
    assert_eq!(shown.original(), "[[foo.bar|the bar]]");
}

#[test]
fn original_parses_back() {
    for r in [
        Reference::new("pkg.mod.Class".to_string(), None),
        Reference::new("pkg.f".to_string(), Some("f | g".to_string())),
        Reference::new("".to_string(), Some("".to_string())),
    ] {
        let text = r.original();
        let mut input = text.as_str();
        assert_eq!(parse_contents(&mut input), Ok(vec![ContentNode::Reference(r.clone())]));
    }
}

#[test]
fn text_nodes_are_never_empty() {
    for text in ["", "[[", "a[[b", "[[x\n]][[y]]", "[[a]][[b]]", "]]]][[[["] {
        let mut input = text;
        let nodes = parse_contents(&mut input).unwrap();
        for node in nodes {
            if let ContentNode::Text(t) = node {
                assert!(!t.is_empty());
            }
        }
    }
}

#[test]
fn plain_text_is_one_node() {
    let mut input = "just [ text ] with [ brackets ]";
    assert_eq!(
        parse_contents(&mut input),
        Ok(vec![ContentNode::Text("just [ text ] with [ brackets ]".to_string())])
    );
}

#[test]
fn failed_reference_swallows_the_rest() {
    let mut input = "a [[b\nc]] d [[e]]";
    assert_eq!(
        parse_contents(&mut input),
        Ok(vec![
            ContentNode::Text("a ".to_string()),
            ContentNode::Text("[[b\nc]] d [[e]]".to_string()),
        ])
    );
}
