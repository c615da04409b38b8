use regex::Regex;
use sheepnet::cell::convert_link;
use sheepnet::cell::strip_link;
use sheepnet::cell::SITE_ORIGIN;
use sheepnet::links::markdown_to_html_links;
use sheepnet::links::strip_markdown_links;
use sheepnet::text::char_is_space;
use sheepnet::text::chars_of;
use sheepnet::text::find_char_from;
use sheepnet::text::find_from;
use sheepnet::text::has_at;
use sheepnet::text::string_of;
use sheepnet::text::trim_from;

struct Mixer {
    state: u64,
}

impl Mixer {
    fn next(&mut self, bound: usize) -> usize {
        self.state = self.state.wrapping_mul(6_364_136_223_846_793_005).wrapping_add(1_442_695_040_888_963_407);
        ((self.state >> 33) as usize) % bound
    }

    fn text(&mut self, pieces: &[&str], most: usize) -> String {
        let count = 1 + self.next(most);
        let mut text = String::new();
        for _ in 0..count {
            text.push_str(pieces[self.next(pieces.len())]);
        }
        text
    }
}

const MARKUP: [&str; 24] = [
    "<a ", "<a", "href=\"", "href=\"/wiki/", "\"", ">", "</a>", "x", "y z", " ", "\n", "<b>", "</b>", ")",
    "(", "/", "<", "title=\"t\"", "\t", "\u{a0}", "é", "](", "[", "<a\u{2003}",
];

const LINKS: [&str; 16] =
    ["[", "]", "(", ")", "](", "a", "b c", "\n", "<i>", ">", "<", " ", "https://e.org/", "é", "\r", "</i>"];

struct Patterns {
    anchor: Regex,
    tag: Regex,
    link: Regex,
}

fn patterns() -> Patterns {
    Patterns {
        anchor: Regex::new(r#"<a\s+[^>]*href="([^"]+)"[^>]*>(.+?)</a>"#).unwrap(),
        tag: Regex::new(r"<[^>]+>").unwrap(),
        link: Regex::new(r"\[(.+?)\]\((.+?)\)").unwrap(),
    }
}

fn by_pattern(patterns: &Patterns, html: &str, keep_link: bool) -> String {
    match patterns.anchor.captures(html) {
        Some(caps) => {
            let target = &caps[1];
            let origin = if target.starts_with('/') { SITE_ORIGIN } else { "" };
            let head = if keep_link {
                format!("[{}]({}{})", &caps[2], origin, target.replace(')', "%29"))
            } else {
                caps[2].to_string()
            };
            let after = html[caps.get(0).unwrap().end()..].trim();
            if after.is_empty() {
                head
            } else {
                format!("{} {}", head, patterns.tag.replace_all(after, ""))
            }
        }
        None => patterns.tag.replace_all(html, "").to_string(),
    }
}

fn check_cell(patterns: &Patterns, html: &str) -> bool {
    assert_eq!(convert_link(html).unwrap(), by_pattern(patterns, html, true), "for {:?}", html);
    assert_eq!(strip_link(html).unwrap(), by_pattern(patterns, html, false), "for {:?}", html);
    patterns.anchor.is_match(html)
}

#[test]
fn white_space_is_what_the_standard_library_calls_white_space() {
    for code in 0..=0x10FFFFu32 {
        if let Some(c) = char::from_u32(code) {
            assert_eq!(char_is_space(c), c.is_whitespace(), "for U+{:04X}", code);
        }
    }
}

#[test]
fn cells_agree_with_a_regular_expression_for_the_same_grammar() {
    let patterns = patterns();
    let mut mixer = Mixer { state: 20_251_122 };
    for _ in 0..30_000 {
        check_cell(&patterns, &mixer.text(&MARKUP, 12));
    }
}

#[test]
fn cells_with_an_anchor_agree_with_a_regular_expression() {
    let patterns = patterns();
    let mut mixer = Mixer { state: 77 };
    let mut with_anchor = 0;
    for _ in 0..30_000 {
        let html = format!(
            "{}<a {}href=\"{}\"{}>{}</a>{}",
            mixer.text(&MARKUP, 3),
            mixer.text(&MARKUP, 2),
            mixer.text(&MARKUP, 3),
            mixer.text(&MARKUP, 2),
            mixer.text(&MARKUP, 3),
            mixer.text(&MARKUP, 4)
        );
        if check_cell(&patterns, &html) {
            with_anchor += 1;
        }
    }
    assert!(with_anchor > 3_000, "only {} cells had an anchor", with_anchor);
}

#[test]
fn links_agree_with_a_regular_expression_for_the_same_grammar() {
    let patterns = patterns();
    let mut mixer = Mixer { state: 4_711 };
    let mut with_link = 0;
    for round in 0..60_000 {
        let text = if round % 2 == 0 {
            mixer.text(&LINKS, 12)
        } else {
            format!(
                "{}[{}]({}){}",
                mixer.text(&LINKS, 3),
                mixer.text(&LINKS, 3),
                mixer.text(&LINKS, 3),
                mixer.text(&LINKS, 4)
            )
        };
        if patterns.link.is_match(&text) {
            with_link += 1;
        }
        let unlinked = patterns.link.replace_all(&text, "$1").to_string();
        let plain = patterns.tag.replace_all(&unlinked, "").to_string();
        assert_eq!(strip_markdown_links(&text), plain, "for {:?}", text);
        let html = patterns.link.replace_all(&text, r#"<a href="$2">$1</a>"#).to_string();
        assert_eq!(markdown_to_html_links(&text), html, "for {:?}", text);
    }
    assert!(with_link > 8_000, "only {} texts had a link", with_link);
}

#[test]
fn every_short_text_of_brackets_agrees_with_a_regular_expression() {
    let link = patterns().link;
    let letters = ['[', ']', '(', ')', 'a', '\n'];
    for length in 0..=8u32 {
        for pick in 0..letters.len().pow(length) {
            let mut rest = pick;
            let mut text = String::new();
            for _ in 0..length {
                text.push(letters[rest % letters.len()]);
                rest /= letters.len();
            }
            let html = link.replace_all(&text, r#"<a href="$2">$1</a>"#).to_string();
            assert_eq!(markdown_to_html_links(&text), html, "for {:?}", text);
        }
    }
}

#[test]
fn every_short_text_of_angle_brackets_agrees_with_a_regular_expression() {
    let tag = patterns().tag;
    let letters = ['<', '>', 'a', '/'];
    for length in 0..=10u32 {
        for pick in 0..letters.len().pow(length) {
            let mut rest = pick;
            let mut text = String::new();
            for _ in 0..length {
                text.push(letters[rest % letters.len()]);
                rest /= letters.len();
            }
            let plain = tag.replace_all(&text, "").to_string();
            assert_eq!(convert_link(&text).unwrap(), plain, "for {:?}", text);
            assert_eq!(strip_markdown_links(&text), plain, "for {:?}", text);
        }
    }
}

#[test]
fn searches_find_the_first_place() {
    let text = chars_of("abc>de>f");
    assert_eq!(find_char_from(&text, '>', 0), 3);
    assert_eq!(find_char_from(&text, '>', 3), 3);
    assert_eq!(find_char_from(&text, '>', 4), 6);
    assert_eq!(find_char_from(&text, '>', 7), 8);
    assert_eq!(find_char_from(&text, '>', 99), 8);
    assert_eq!(find_char_from(&text, 'z', 0), 8);
    assert_eq!(find_from(&text, &['d', 'e'], 0), 4);
    assert_eq!(find_from(&text, &['d', 'e'], 5), 8);
    assert_eq!(find_from(&text, &['f'], 0), 7);
    assert_eq!(find_from(&text, &['f', 'g'], 0), 8);
    assert!(has_at(&text, &['a', 'b', 'c'], 0));
    assert!(has_at(&text, &[], 8));
    assert!(!has_at(&text, &[], 9));
    assert!(!has_at(&text, &['f', 'g'], 7));
    assert!(!has_at(&text, &['b'], 0));
}

#[test]
fn characters_are_counted_not_bytes() {
    let text = chars_of("é\u{2003}ü ");
    assert_eq!(text.len(), 4);
    assert_eq!(string_of(&text), "é\u{2003}ü ");
    assert_eq!(string_of(&trim_from(&chars_of(" \u{3000}é ü\u{a0}\n"), 0)), "é ü");
    assert_eq!(string_of(&trim_from(&chars_of("ab  cd "), 2)), "cd");
    assert_eq!(string_of(&trim_from(&chars_of(" \t "), 0)), "");
    assert_eq!(string_of(&trim_from(&chars_of("abc"), 3)), "");
}

#[test]
fn trimming_agrees_with_the_standard_library() {
    let pieces = [" ", "\t", "\n", "\r", "\u{a0}", "\u{2003}", "\u{3000}", "\u{85}", "a", "é", "b c", "\u{200b}", "\u{feff}"];
    let mut mixer = Mixer { state: 31_337 };
    for _ in 0..5_000 {
        let text = mixer.text(&pieces, 8);
        assert_eq!(string_of(&trim_from(&chars_of(&text), 0)), text.trim(), "for {:?}", text);
    }
    assert_eq!(string_of(&trim_from(&chars_of(""), 0)), "");
}
