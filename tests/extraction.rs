use kattis_init::extract::{
    body_nodes, classify, parse_document, parse_page, parse_table, BodyNode, NodeKind, ParseError,
    Section,
};
use kattis_init::text::normalize_text;

fn node(name: &str, text: &str) -> BodyNode {
    BodyNode { name: Some(name.to_string()), text: text.to_string(), pre_blocks: Vec::new() }
}

fn table(pres: &[&str]) -> BodyNode {
    BodyNode {
        name: Some("table".to_string()),
        text: String::new(),
        pre_blocks: pres.iter().map(|p| p.to_string()).collect(),
    }
}

fn heading() -> BodyNode {
    node("h2", "Input")
}

#[test]
fn table_with_one_block_is_malformed() {
    let r = parse_table(&vec!["1 2".to_string()]);
    assert_eq!(r, Err(ParseError::InsufficientPreBlocks));
}

#[test]
fn table_with_no_block_is_malformed() {
    assert_eq!(parse_table(&Vec::new()), Err(ParseError::InsufficientPreBlocks));
}

#[test]
fn table_with_two_blocks_gives_sample() {
    let r = parse_table(&vec!["1 2\n".to_string(), "3\n".to_string()]);
    assert_eq!(r, Ok(("1 2\n".to_string(), "3\n".to_string())));
}

#[test]
fn table_with_three_blocks_uses_first_two() {
    let r = parse_table(&vec!["a".to_string(), "b".to_string(), "c".to_string()]);
    assert_eq!(r, Ok(("a".to_string(), "b".to_string())));
}

#[test]
fn classify_by_tag_name() {
    assert_eq!(classify(&Some("p".to_string())), NodeKind::Paragraph);
    assert_eq!(classify(&Some("h2".to_string())), NodeKind::Heading);
    assert_eq!(classify(&Some("table".to_string())), NodeKind::Table);
    assert_eq!(classify(&Some("div".to_string())), NodeKind::Other);
    assert_eq!(classify(&None), NodeKind::Other);
}

#[test]
fn section_advances_until_output() {
    assert_eq!(Section::Description.advance(), Ok(Section::InputSpec));
    assert_eq!(Section::InputSpec.advance(), Ok(Section::OutputSpec));
    assert_eq!(Section::OutputSpec.advance(), Err(ParseError::TooManySections));
}

#[test]
fn normalization_trims_and_strips() {
    let r = normalize_text("  Given $n$ numbers,\n   one per line.\n ");
    assert_eq!(r, "Given n numbers,one per line.");
}

#[test]
fn well_formed_document_extracts_in_order() {
    let nodes = vec![
        node("p", "A story."),
        node("div", "ignored"),
        table(&["1\n", "2\n"]),
        heading(),
        node("p", " Two integers $a$ and $b$. "),
        heading(),
        node("p", "Their sum."),
        table(&["3 4\n", "7\n", "extra"]),
    ];
    let p = parse_document(&nodes).unwrap();
    assert_eq!(p.description, "A story.");
    assert_eq!(p.input_description, "Two integers a and b.");
    assert_eq!(p.output_description, "Their sum.");
    assert_eq!(p.tests.len(), 2);
    assert_eq!(p.tests[0].index, 0);
    assert_eq!(p.tests[0].input, "1\n");
    assert_eq!(p.tests[0].expected_output, "2\n");
    assert_eq!(p.tests[1].index, 1);
    assert_eq!(p.tests[1].input, "3 4\n");
    assert_eq!(p.tests[1].expected_output, "7\n");
}

#[test]
fn empty_document_extracts_empty_problem() {
    let p = parse_document(&Vec::new()).unwrap();
    assert_eq!(p.description, "");
    assert_eq!(p.input_description, "");
    assert_eq!(p.output_description, "");
    assert!(p.tests.is_empty());
}

#[test]
fn paragraphs_of_a_section_are_concatenated() {
    let nodes = vec![node("p", "One."), node("p", "Two.")];
    let p = parse_document(&nodes).unwrap();
    assert_eq!(p.description, "One.Two.");
}

#[test]
fn three_headings_fail() {
    let nodes = vec![heading(), heading(), heading(), table(&["1", "2"])];
    assert_eq!(parse_document(&nodes).err(), Some(ParseError::TooManySections));
}

#[test]
fn three_headings_fail_whatever_the_tables() {
    let nodes = vec![table(&["only one"]), heading(), heading(), heading(), heading()];
    assert_eq!(parse_document(&nodes).err(), Some(ParseError::TooManySections));
}

#[test]
fn malformed_table_fails_document() {
    let nodes = vec![heading(), table(&["1", "2"]), table(&["lonely"])];
    assert_eq!(parse_document(&nodes).err(), Some(ParseError::InsufficientPreBlocks));
}

#[test]
fn body_nodes_are_children_of_the_problem_body() {
    let page = "<div class=\"other\"><p>skip</p></div>\
<div class=\"problembody\"><p>Story <b>bold</b></p><div><p>nested</p></div>\
<table><tr><td><pre>in</pre></td><td><pre>out</pre></td></tr></table></div>";
    let nodes = body_nodes(page);
    let names: Vec<Option<String>> = nodes.iter().map(|n| n.name.clone()).collect();
    assert_eq!(
        names,
        vec![Some("p".to_string()), Some("div".to_string()), Some("table".to_string())]
    );
    assert_eq!(nodes[0].text, "Story bold");
    assert_eq!(nodes[2].pre_blocks, vec!["in".to_string(), "out".to_string()]);
}

#[test]
fn page_extracts_samples() {
    let page = "<div class=\"problembody\"><p>Hi.</p>\
<table><tr><td><pre>1 2\n</pre></td><td><pre>3\n</pre></td></tr></table></div>";
    let p = parse_page(page).unwrap();
    assert_eq!(p.description, "Hi.");
    assert_eq!(p.tests.len(), 1);
    assert_eq!(p.tests[0].input, "1 2\n");
    assert_eq!(p.tests[0].expected_output, "3\n");
}
