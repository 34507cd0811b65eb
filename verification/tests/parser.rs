use xpath::parser::Parser;

#[test]
fn parses_a_document_with_a_single_element() {
    let parser = Parser::new();
    let doc = parser.parse("<?xml version='1.0' ?><hello />").unwrap();
    let top = doc.root().first_child().unwrap().element().unwrap();

    assert_eq!(top.name(), "hello");
}

#[test]
fn parses_an_element_with_an_attribute() {
    let parser = Parser::new();
    let doc = parser.parse("<?xml version='1.0' ?><hello scope='world'/>").unwrap();
    let top = doc.root().first_child().unwrap().element().unwrap();

    assert_eq!(top.get_attribute("scope").unwrap().as_str(), "world");
}

#[test]
fn parses_an_element_with_an_attribute_using_double_quotes() {
    let parser = Parser::new();
    let doc = parser.parse("<?xml version='1.0' ?><hello scope=\"world\"/>").unwrap();
    let top = doc.root().first_child().unwrap().element().unwrap();

    assert_eq!(top.get_attribute("scope").unwrap().as_str(), "world");
}

#[test]
fn rejects_a_document_without_preamble_end() {
    let parser = Parser::new();
    assert!(parser.parse("<?xml version='1.0' <hello />").is_none());
}

#[test]
fn rejects_an_element_without_space_after_name() {
    let parser = Parser::new();
    assert!(parser.parse("<?xml version='1.0' ?><hello/>").is_none());
}

#[test]
fn rejects_an_attribute_without_closing_quote() {
    let parser = Parser::new();
    assert!(parser.parse("<?xml version='1.0' ?><hello scope='world/>").is_none());
}
