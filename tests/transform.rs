use markdown_to_html::{
    apply_pass, html_document, list_items, markdown_to_html, rewrite, trim_spaces, Captured,
    Construct, Element,
};

#[test]
fn title_heading() {
    assert_eq!(markdown_to_html("# Title"), "<h1>Title</h1>");
}

#[test]
fn heading_levels_each_match_their_own_lines() {
    assert_eq!(
        markdown_to_html("# One\n## Two\n### Three\n#### Four"),
        "<h1>One</h1>\n<h2>Two</h2>\n<h3>Three</h3>\n<h4>Four</h4>"
    );
}

#[test]
fn heading_needs_space_after_marker() {
    assert_eq!(markdown_to_html("#NoSpace"), "#NoSpace");
}

#[test]
fn bold_then_literal_then_italic() {
    assert_eq!(
        markdown_to_html("**bold** and *italic*"),
        "<b>bold</b> and <i>italic</i>"
    );
}

#[test]
fn strikethrough_underline_and_code() {
    assert_eq!(markdown_to_html("~gone~"), "<s>gone</s>");
    assert_eq!(markdown_to_html("_under_"), "<u>under</u>");
    assert_eq!(markdown_to_html("`x`"), "<code>x</code>");
}

#[test]
fn fenced_code_block() {
    assert_eq!(
        markdown_to_html("```rust\nlet x = 1;\n```"),
        "<pre><code>let x = 1;</code></pre>"
    );
}

#[test]
fn unordered_list_is_one_container() {
    let out = markdown_to_html("- a\n- b\n- c");
    assert_eq!(out, "<ul><li>a</li>\n<li>b</li>\n<li>c</li></ul>");
    assert_eq!(out.matches("<ul>").count(), 1);
    assert_eq!(out.matches("<li>").count(), 3);
}

#[test]
fn indented_list_and_following_text() {
    assert_eq!(
        markdown_to_html("  - a\n  - b\n\nText"),
        "<ul><li>a</li>\n<li>b</li></ul>Text"
    );
}

#[test]
fn ordered_list() {
    assert_eq!(
        markdown_to_html("1. one\n2. two"),
        "<ol><li>one</li>\n<li>two</li></ol>"
    );
}

#[test]
fn checked_and_unchecked_boxes() {
    assert_eq!(
        markdown_to_html("[x] done\n[] todo"),
        "<input type=\"checkbox\" checked=\"true\"><label>done</label>\n\
         <input type=\"checkbox\" checked=\"false\"><label>todo</label>"
    );
}

#[test]
fn checkmark_is_case_insensitive() {
    assert_eq!(
        markdown_to_html("[X] big"),
        "<input type=\"checkbox\" checked=\"true\"><label>big</label>"
    );
}

#[test]
fn image_is_not_also_a_link() {
    let out = markdown_to_html("![alt](img.png)");
    assert_eq!(out, "<img src=\"img.png\" alt=\"alt\">");
    assert!(!out.contains("<a "));
}

#[test]
fn link() {
    assert_eq!(
        markdown_to_html("[site](http://x.org)"),
        "<a href=\"http://x.org\">site</a>"
    );
}

#[test]
fn plain_text_unchanged() {
    assert_eq!(markdown_to_html("Just some words"), "Just some words");
    assert_eq!(markdown_to_html("a line\nand another"), "a line\nand another");
}

#[test]
fn empty_input_gives_empty_output() {
    assert_eq!(markdown_to_html(""), "");
}

#[test]
fn second_transform_changes_nothing() {
    let once = markdown_to_html("# T\n**b** and *i*\n- x\n- y\n[x] ok");
    assert_eq!(markdown_to_html(&once), once);
}

#[test]
fn single_pass() {
    assert_eq!(apply_pass(Construct::Italic, "*a* b"), "<i>a</i> b");
    assert_eq!(apply_pass(Construct::Bold, "*a* b"), "*a* b");
}

#[test]
fn rewrite_replaces_each_match() {
    let pieces = vec![String::from("a "), String::from(" b")];
    let found = vec![Captured {
        whole: String::from("**x**"),
        groups: vec![Some(String::from("x"))],
    }];
    assert_eq!(rewrite(Construct::Bold, &pieces, &found), "a <b>x</b> b");
}

#[test]
fn rewrite_reads_absent_group_as_empty() {
    let pieces = vec![String::new(), String::new()];
    let found = vec![Captured {
        whole: String::from("[] t"),
        groups: vec![None, Some(String::from("t"))],
    }];
    assert_eq!(
        rewrite(Construct::Checkbox, &pieces, &found),
        "<input type=\"checkbox\" checked=\"false\"><label>t</label>"
    );
}

#[test]
fn list_items_of_a_block() {
    assert_eq!(list_items("- a\n\n  - b c  \n"), vec!["a", "b c"]);
    assert_eq!(list_items("\t10. ten"), vec!["ten"]);
    assert_eq!(list_items("-\tno_space"), vec![""]);
    assert!(list_items(" \n\t\n").is_empty());
}

#[test]
fn element_fragments() {
    assert_eq!(
        Element::Link(String::from("t"), String::from("u")).to_html(),
        "<a href=\"u\">t</a>"
    );
    assert_eq!(
        Element::Image(String::new(), String::from("p.png")).to_html(),
        "<img src=\"p.png\" alt=\"\">"
    );
    assert_eq!(
        Element::CodeBlock(String::from("a\n\nb")).to_html(),
        "<pre><code>a\n\nb</code></pre>"
    );
    assert_eq!(Element::OrderedList(Vec::new()).to_html(), "<ol></ol>");
    assert_eq!(
        Element::UnorderedList(vec![String::from("one")]).to_html(),
        "<ul><li>one</li></ul>"
    );
    assert_eq!(
        Element::Checkbox(false, String::from("x")).to_html(),
        "<input type=\"checkbox\" checked=\"false\"><label>x</label>"
    );
    assert_eq!(Element::Subheader(String::from("s")).to_html(), "<h4>s</h4>");
}

#[test]
fn document_envelope() {
    assert_eq!(
        html_document("<h1>T</h1>"),
        "<html><head><title>Markdown to HTML</title></head><body><h1>T</h1></body></html>"
    );
}

#[test]
fn trim_spaces_cases() {
    assert_eq!(trim_spaces("We need more spaces"), "We need more spaces");
    assert_eq!(trim_spaces("   There's space in front"), "There's space in front");
    assert_eq!(trim_spaces("There's space to the rear   "), "There's space to the rear");
    assert_eq!(trim_spaces("   We're surrounded by space!   "), "We're surrounded by space!");
    assert_eq!(trim_spaces("      "), "");
    assert_eq!(trim_spaces(""), "");
    assert_eq!(trim_spaces(" 🚀  "), "🚀");
    assert_eq!(trim_spaces("  a  "), "a");
    assert_eq!(trim_spaces("\ta "), "\ta");
}
