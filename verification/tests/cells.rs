use sheepnet::convert_link;
use sheepnet::markdown_to_html_links;
use sheepnet::strip_link;
use sheepnet::strip_markdown_links;

#[test]
fn test_convert_link() {
    let html = r#"<a href="/wiki/Test_Page">Test Link</a>"#;
    let result = convert_link(html).unwrap();
    assert_eq!(result, "[Test Link](https://wiki.guildwars.com/wiki/Test_Page)");

    let html_with_paren = r#"<a href="/wiki/Test_(Page)">Test Link</a>"#;
    let result = convert_link(html_with_paren).unwrap();
    assert_eq!(result, "[Test Link](https://wiki.guildwars.com/wiki/Test_(Page%29)");

    let plain_text = "Plain text";
    let result = convert_link(plain_text).unwrap();
    assert_eq!(result, "Plain text");
}

#[test]
fn test_strip_markdown_links() {
    let text = "[Test Link](https://example.com)";
    assert_eq!(strip_markdown_links(text), "Test Link");

    let text = "Before [Link](url) After";
    assert_eq!(strip_markdown_links(text), "Before Link After");
}

#[test]
fn test_markdown_to_html_links() {
    let text = "[Test](https://example.com)";
    assert_eq!(markdown_to_html_links(text), r#"<a href="https://example.com">Test</a>"#);
}

#[test]
fn strip_link_keeps_text_and_suffix() {
    let html = r#"<a href="/wiki/Codex_Arena" title="Codex Arena">Codex Arena</a> <b>(3x)</b>"#;
    assert_eq!(strip_link(html).unwrap(), "Codex Arena (3x)");
    assert_eq!(
        convert_link(html).unwrap(),
        "[Codex Arena](https://wiki.guildwars.com/wiki/Codex_Arena) (3x)"
    );
}

#[test]
fn an_absolute_target_is_not_prefixed() {
    let html = r#"<a href="https://example.org/a_(b)">Elsewhere</a>"#;
    assert_eq!(convert_link(html).unwrap(), "[Elsewhere](https://example.org/a_(b%29)");
    let html = r#"<a class="external" href="page">Relative</a> !"#;
    assert_eq!(convert_link(html).unwrap(), "[Relative](page) !");
}

#[test]
fn every_closing_parenthesis_of_the_target_is_escaped() {
    let html = r#"<a href="/wiki/A)_(B)_)">T</a>"#;
    assert_eq!(convert_link(html).unwrap(), "[T](https://wiki.guildwars.com/wiki/A%29_(B%29_%29)");
    assert_eq!(strip_link(html).unwrap(), "T");
}

#[test]
fn a_cell_without_an_anchor_is_the_same_in_both_modes() {
    for html in ["Plain text", "<b>Bold</b> and <i>italic</i>", "", "a < b > c", "<>", "<a>no target</a>",
        "<a name=\"x\">named</a>", "x <a href=\"\">empty</a>", "<a href=\"/wiki/X\"></a>"]
    {
        assert_eq!(convert_link(html).unwrap(), strip_link(html).unwrap(), "for {:?}", html);
    }
    assert_eq!(convert_link("<b>Bold</b> and <i>italic</i>").unwrap(), "Bold and italic");
    assert_eq!(convert_link("a < b > c").unwrap(), "a  c");
    assert_eq!(convert_link("<>").unwrap(), "<>");
    assert_eq!(strip_link("<a>no target</a>").unwrap(), "no target");
}

#[test]
fn the_suffix_is_trimmed_and_loses_its_tags() {
    let html = "<a href=\"/wiki/X\">X</a>  \n <b>(3x)</b> <i>rare</i>  ";
    assert_eq!(convert_link(html).unwrap(), "[X](https://wiki.guildwars.com/wiki/X) (3x) rare");
    assert_eq!(strip_link(html).unwrap(), "X (3x) rare");
    let html = "<a href=\"/wiki/X\">X</a> \t\n";
    assert_eq!(convert_link(html).unwrap(), "[X](https://wiki.guildwars.com/wiki/X)");
    assert_eq!(strip_link(html).unwrap(), "X");
}

#[test]
fn the_first_anchor_counts_and_the_last_target_in_its_tag() {
    let html = r#"see <a href="/wiki/One">one</a> and <a href="/wiki/Two">two</a>"#;
    assert_eq!(
        convert_link(html).unwrap(),
        "[one](https://wiki.guildwars.com/wiki/One) and two"
    );
    let html = r#"<a href="/wiki/One" data-href="/wiki/Two">text</a>"#;
    assert_eq!(convert_link(html).unwrap(), "[text](https://wiki.guildwars.com/wiki/Two)");
    let html = "<a\thref=\"/a\">tab</a>";
    assert_eq!(convert_link(html).unwrap(), "[tab](https://wiki.guildwars.com/a)");
    let html = "<a href=\"/a\">two\nlines</a>";
    assert_eq!(convert_link(html).unwrap(), "two\nlines");
}

#[test]
fn unlinking_a_kept_link_gives_the_dropped_link() {
    for html in [
        r#"<a href="/wiki/Test_(Page)">Test Link</a>"#,
        r#"<a href="/wiki/Codex_Arena" title="Codex Arena">Codex Arena</a> <b>(3x)</b>"#,
        r#"<a href="x">[odd] (text)</a> tail ) ("#,
        r#"before <a href="/wiki/A">A</a> after"#,
    ] {
        let kept = convert_link(html).unwrap();
        assert_eq!(strip_markdown_links(&kept), strip_link(html).unwrap(), "for {:?}", html);
    }
}

#[test]
fn links_are_read_from_the_left_and_on_one_line() {
    assert_eq!(strip_markdown_links("[a](b) and [c](d)"), "a and c");
    assert_eq!(strip_markdown_links("[a]\n(b)"), "[a]\n(b)");
    assert_eq!(strip_markdown_links("[a\nb](c)"), "[a\nb](c)");
    assert_eq!(strip_markdown_links("[a](b\nc)"), "[a](b\nc)");
    assert_eq!(strip_markdown_links("[](x)"), "[](x)");
    assert_eq!(strip_markdown_links("[](x)](y)"), "](x)");
    assert_eq!(strip_markdown_links("[a]()"), "[a]()");
    assert_eq!(strip_markdown_links("[a]())"), "a");
    assert_eq!(strip_markdown_links("[[a](b)"), "[a");
    assert_eq!(strip_markdown_links("x <b>y</b> [z](w)"), "x y z");
    assert_eq!(markdown_to_html_links("[a](b) and [c](d)"), "<a href=\"b\">a</a> and <a href=\"d\">c</a>");
    assert_eq!(markdown_to_html_links("no link <b>here</b>"), "no link <b>here</b>");
    assert_eq!(markdown_to_html_links("[a]())"), "<a href=\")\">a</a>");
}

fn pick(state: &mut u64, pieces: &[&str], most: usize) -> String {
    let mut text = String::new();
    *state = state.wrapping_mul(6_364_136_223_846_793_005).wrapping_add(1_442_695_040_888_963_407);
    let count = 1 + ((*state >> 33) as usize) % most;
    for _ in 0..count {
        *state = state.wrapping_mul(6_364_136_223_846_793_005).wrapping_add(1_442_695_040_888_963_407);
        text.push_str(pieces[((*state >> 33) as usize) % pieces.len()]);
    }
    text
}

#[test]
fn a_cell_of_the_plain_form_keeps_its_text_and_escaped_target() {
    let targets = ["wiki", "/", "_", "(", ")", "#", "%29", "é", ":", "A", "href", " "];
    let texts = ["T", "e x", "é", "(", ")", "[", "]", "](", ">", "\"", "&amp;", " "];
    let mut state: u64 = 5;
    for _ in 0..3_000 {
        let target = format!("/{}x", pick(&mut state, &targets, 5));
        let text = format!("{}.", pick(&mut state, &texts, 4));
        let html = format!("<a href=\"{}\">{}</a>", target, text);
        let url = format!("https://wiki.guildwars.com{}", target.replace(')', "%29"));
        assert!(!url.contains(')'));
        assert_eq!(convert_link(&html).unwrap(), format!("[{}]({})", text, url), "for {:?}", html);
        assert_eq!(strip_link(&html).unwrap(), text, "for {:?}", html);
    }
}

#[test]
fn the_round_trip_of_a_cell_of_the_plain_form() {
    let targets = ["wiki", "/", "_", "(", ")", "#", "é", ":", "A"];
    let texts = ["T", "e x", "é", "(", ")", ">", "&amp;", " ", "\""];
    let suffixes = ["", " (3x)", " x", "  y  ", "\n", " ] ) ( ", " a > b"];
    let mut state: u64 = 6;
    for round in 0..3_000 {
        let target = format!("/{}x", pick(&mut state, &targets, 5));
        let text = format!("{}.", pick(&mut state, &texts, 4));
        let after = suffixes[round % suffixes.len()];
        let html = format!("<a href=\"{}\">{}</a>{}", target, text, after);
        let expected = if after.trim().is_empty() {
            text.clone()
        } else {
            format!("{} {}", text, after.trim())
        };
        let kept = convert_link(&html).unwrap();
        assert_eq!(strip_markdown_links(&kept), expected, "for {:?}", html);
        assert_eq!(strip_link(&html).unwrap(), expected, "for {:?}", html);
    }
}
