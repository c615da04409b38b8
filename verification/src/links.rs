//! The portable link syntax, `[text](url)`, in which a cell carries a link
//! until it is rendered: finding links in a text, and rewriting them as plain
//! text or as HTML anchors.

use crate::markup::close_mark;
use crate::markup::push_without_tags;
use crate::markup::without_tags;
use crate::text::chars_of;
use crate::text::find_char_from;
use crate::text::find_from;
use crate::text::first_char_from;
use crate::text::first_occurrence_from;
use crate::text::lacks;
use crate::text::lemma_first_char_from;
use crate::text::lemma_first_char_is;
use crate::text::lemma_first_char_shift;
use crate::text::lemma_first_occurrence_from;
use crate::text::lemma_first_occurrence_is;
use crate::text::lemma_first_occurrence_shift;
use crate::text::occurs_at;
use crate::text::push_all;
use crate::text::push_range;
use crate::text::string_of;
use vstd::prelude::*;

verus! {

/// The places of a link in a text, as indices into its characters: the link
/// text is `text_start..text_end`, the URL `url_start..url_end`, and `end` is
/// just past the closing parenthesis.
pub struct Link {
    pub text_start: int,
    pub text_end: int,
    pub url_start: int,
    pub url_end: int,
    pub end: int,
}

/// The characters between a link's text and its URL.
pub open spec fn middle_mark() -> Seq<char> {
    seq![']', '(']
}

/// The characters that open an HTML anchor up to its target.
pub open spec fn anchor_open_mark() -> Seq<char> {
    seq!['<', 'a', ' ', 'h', 'r', 'e', 'f', '=', '"']
}

/// The characters between an HTML anchor's target and its text.
pub open spec fn anchor_text_mark() -> Seq<char> {
    seq!['"', '>']
}

/// A link in the portable syntax.
pub open spec fn link_syntax(text: Seq<char>, url: Seq<char>) -> Seq<char> {
    seq!['['] + text + middle_mark() + url + seq![')']
}

/// The link that starts at `i`, if one does: `[`, a text that is not empty and
/// ends where `](` first stands after its first character, a URL that is not
/// empty and ends where `)` first stands after its first character. Neither
/// holds a line feed.
pub open spec fn link_at(s: Seq<char>, i: int) -> Option<Link> {
    let middle = first_occurrence_from(s, middle_mark(), i + 2);
    let close = first_char_from(s, ')', middle + 3);
    if 0 <= i < s.len() && s[i] == '[' && middle < s.len() && first_char_from(s, '\n', i + 1)
        >= middle && close < s.len() && first_char_from(s, '\n', middle + 2) >= close {
        Some(
            Link {
                text_start: i + 1,
                text_end: middle,
                url_start: middle + 2,
                url_end: close,
                end: close + 1,
            },
        )
    } else {
        None
    }
}

/// What stands in a link's place: its text alone, or an HTML anchor to its
/// URL around its text.
pub open spec fn link_replacement(s: Seq<char>, link: Link, as_html: bool) -> Seq<char> {
    let text = s.subrange(link.text_start, link.text_end);
    let url = s.subrange(link.url_start, link.url_end);
    if as_html {
        anchor_open_mark() + url + anchor_text_mark() + text + close_mark()
    } else {
        text
    }
}

/// `s` from index `i` on, with every link replaced, read from the left.
pub open spec fn relinked_from(s: Seq<char>, i: int, as_html: bool) -> Seq<char>
    decreases s.len() - i,
{
    if i < 0 || i >= s.len() {
        Seq::empty()
    } else if link_at(s, i) is Some && link_at(s, i)->0.end > i {
        link_replacement(s, link_at(s, i)->0, as_html) + relinked_from(
            s,
            link_at(s, i)->0.end,
            as_html,
        )
    } else {
        seq![s[i]] + relinked_from(s, i + 1, as_html)
    }
}

/// `s` with every link replaced by its text.
pub open spec fn unlinked(s: Seq<char>) -> Seq<char> {
    relinked_from(s, 0, false)
}

/// `s` with every link replaced by an HTML anchor.
pub open spec fn html_linked(s: Seq<char>) -> Seq<char> {
    relinked_from(s, 0, true)
}

/// The text and the URL of the link that starts at `i`, as index ranges.
fn link_starting_at(s: &Vec<char>, i: usize) -> (r: Option<(usize, usize, usize)>)
    requires
        i < s.len(),
    ensures
        match r {
            Some((middle, close, end)) => link_at(s@, i as int) == Some(
                Link {
                    text_start: i + 1,
                    text_end: middle as int,
                    url_start: middle + 2,
                    url_end: close as int,
                    end: end as int,
                },
            ) && i + 2 <= middle && middle + 3 <= close < s.len() && end == close + 1,
            None => link_at(s@, i as int) is None,
        },
{
    if s[i] != '[' {
        return None;
    }
    if s.len() - i <= 2 {
        return None;
    }
    let mark: [char; 2] = [']', '('];
    let middle = find_from(s, mark.as_slice(), i + 2);
    if middle >= s.len() {
        return None;
    }
    if find_char_from(s, '\n', i + 1) < middle {
        return None;
    }
    if s.len() - middle <= 3 {
        return None;
    }
    let close = find_char_from(s, ')', middle + 3);
    if close >= s.len() {
        return None;
    }
    if find_char_from(s, '\n', middle + 2) < close {
        return None;
    }
    Some((middle, close, close + 1))
}

/// `s` with every link replaced: by its text, or by an HTML anchor.
pub fn relink(s: &Vec<char>, as_html: bool) -> (out: Vec<char>)
    ensures
        out@ == relinked_from(s@, 0, as_html),
{
    let mut out: Vec<char> = Vec::new();
    let mut i: usize = 0;
    while i < s.len()
        invariant
            i <= s.len(),
            out@ + relinked_from(s@, i as int, as_html) == relinked_from(s@, 0, as_html),
        decreases s.len() - i,
    {
        match link_starting_at(s, i) {
            Some((middle, close, end)) => {
                if as_html {
                    let open: [char; 9] = ['<', 'a', ' ', 'h', 'r', 'e', 'f', '=', '"'];
                    let between: [char; 2] = ['"', '>'];
                    let closing: [char; 4] = ['<', '/', 'a', '>'];
                    push_all(&mut out, open.as_slice());
                    push_range(&mut out, s, middle + 2, close);
                    push_all(&mut out, between.as_slice());
                    push_range(&mut out, s, i + 1, middle);
                    push_all(&mut out, closing.as_slice());
                } else {
                    push_range(&mut out, s, i + 1, middle);
                }
                i = end;
            },
            None => {
                out.push(s[i]);
                i += 1;
            },
        }
    }
    out
}

/// `text` with every link replaced by its text, and every tag taken out of
/// what that leaves.
pub fn strip_markdown_links(text: &str) -> (plain: String)
    ensures
        plain@ == without_tags(unlinked(text@)),
{
    let chars = chars_of(text);
    let stripped = relink(&chars, false);
    let mut out: Vec<char> = Vec::new();
    push_without_tags(&mut out, &stripped);
    string_of(&out)
}

/// `text` with every link replaced by an HTML anchor to its URL around its
/// text.
pub fn markdown_to_html_links(text: &str) -> (html: String)
    ensures
        html@ == html_linked(text@),
{
    let chars = chars_of(text);
    let linked = relink(&chars, true);
    string_of(&linked)
}

/// Whether a text can stand as a link's text and be read back whole: it is
/// not empty, holds no line feed, and `](` stands nowhere in it after its first
/// character.
pub open spec fn plain_link_text(text: Seq<char>) -> bool {
    &&& text.len() >= 1
    &&& forall|j: int| 0 <= j < text.len() ==> text[j] != '\n'
    &&& forall|j: int| 1 <= j ==> !occurs_at(text, middle_mark(), j)
}

/// Whether a URL can stand as a link's URL and be read back whole: it is not
/// empty and holds no line feed, and no `)` after its first character.
pub open spec fn plain_link_url(url: Seq<char>) -> bool {
    &&& url.len() >= 1
    &&& forall|j: int| 0 <= j < url.len() ==> url[j] != '\n'
    &&& forall|j: int| 1 <= j < url.len() ==> url[j] != ')'
}

/// A link that was written with `link_syntax` is read back as it was written,
/// whatever follows it: the link found at its start has the text and the URL
/// it was written with, and ends where the written link ends.
pub proof fn lemma_written_link_reads_back(text: Seq<char>, url: Seq<char>, tail: Seq<char>)
    requires
        plain_link_text(text),
        plain_link_url(url),
    ensures
        link_at(link_syntax(text, url) + tail, 0) == Some(
            Link {
                text_start: 1,
                text_end: 1 + text.len() as int,
                url_start: 3 + text.len() as int,
                url_end: 3 + text.len() as int + url.len() as int,
                end: 4 + text.len() as int + url.len() as int,
            },
        ),
        (link_syntax(text, url) + tail).subrange(1, 1 + text.len() as int) == text,
        (link_syntax(text, url) + tail).subrange(
            3 + text.len() as int,
            3 + text.len() as int + url.len() as int,
        ) == url,
        link_syntax(text, url).len() == 4 + text.len() + url.len(),
{
    let s = link_syntax(text, url) + tail;
    let n = text.len() as int;
    let u = url.len() as int;
    let mark = middle_mark();
    assert(occurs_at(s, mark, 1 + n)) by {
        assert(s.subrange(1 + n, 3 + n) == mark);
    }
    assert forall|j: int| 2 <= j < 1 + n implies !occurs_at(s, mark, j) by {
        if occurs_at(s, mark, j) {
            assert(s.subrange(j, j + 2)[1] == '(');
            if j < n {
                assert(text.subrange(j - 1, j + 1) == mark);
                assert(occurs_at(text, mark, j - 1));
            }
        }
    }
    lemma_first_occurrence_is(s, mark, 2, 1 + n);
    lemma_first_char_from(s, '\n', 1);
    lemma_first_char_is(s, ')', 4 + n, 3 + n + u);
    lemma_first_char_from(s, '\n', 3 + n);
}

/// Where a link stands in a text behind a prefix: where it stands in the text
/// alone, moved by the length of the prefix.
pub proof fn lemma_link_at_shift(a: Seq<char>, b: Seq<char>, i: int)
    requires
        0 <= i,
    ensures
        link_at(a + b, a.len() + i) == match link_at(b, i) {
            Some(l) => Some(
                Link {
                    text_start: a.len() + l.text_start,
                    text_end: a.len() + l.text_end,
                    url_start: a.len() + l.url_start,
                    url_end: a.len() + l.url_end,
                    end: a.len() + l.end,
                },
            ),
            None => None,
        },
{
    let mark = middle_mark();
    lemma_first_occurrence_shift(a, b, mark, i + 2);
    let middle = first_occurrence_from(b, mark, i + 2);
    if i + 2 <= b.len() {
        lemma_first_occurrence_from(b, mark, i + 2);
    }
    lemma_first_char_shift(a, b, ')', middle + 3);
    lemma_first_char_shift(a, b, '\n', i + 1);
    lemma_first_char_shift(a, b, '\n', middle + 2);
}

/// Replacing the links of a text behind a prefix, from the prefix's end on,
/// gives what replacing the links of the text alone gives.
pub proof fn lemma_relinked_shift(a: Seq<char>, b: Seq<char>, i: int, as_html: bool)
    requires
        0 <= i,
    ensures
        relinked_from(a + b, a.len() + i, as_html) == relinked_from(b, i, as_html),
    decreases b.len() - i,
{
    let s = a + b;
    if i < b.len() {
        lemma_link_at_shift(a, b, i);
        match link_at(b, i) {
            Some(l) => {
                let m = link_at(s, a.len() + i)->0;
                if l.end > i {
                    assert(s.subrange(m.text_start, m.text_end) == b.subrange(
                        l.text_start,
                        l.text_end,
                    )) by {
                        lemma_link_in_bounds(b, i);
                    }
                    assert(s.subrange(m.url_start, m.url_end) == b.subrange(l.url_start, l.url_end))
                        by {
                        lemma_link_in_bounds(b, i);
                    }
                    lemma_relinked_shift(a, b, l.end, as_html);
                } else {
                    lemma_relinked_shift(a, b, i + 1, as_html);
                }
            },
            None => {
                lemma_relinked_shift(a, b, i + 1, as_html);
            },
        }
    }
}

/// The places of a link that was found lie in the text, in their order.
pub proof fn lemma_link_in_bounds(s: Seq<char>, i: int)
    ensures
        link_at(s, i) matches Some(l) ==> 0 <= i < l.text_start < l.text_end && l.text_end + 2
            == l.url_start && l.url_start < l.url_end && l.url_end + 1 == l.end && l.end
            <= s.len(),
{
    if link_at(s, i) is Some {
        lemma_first_occurrence_from(s, middle_mark(), i + 2);
        let middle = first_occurrence_from(s, middle_mark(), i + 2);
        lemma_first_char_from(s, ')', middle + 3);
    }
}

/// Replacing the links of a text that starts with a written link: the
/// written link gives its replacement, and what follows it is treated as if
/// it stood alone.
pub proof fn lemma_relinked_written_link(
    text: Seq<char>,
    url: Seq<char>,
    tail: Seq<char>,
    as_html: bool,
)
    requires
        plain_link_text(text),
        plain_link_url(url),
    ensures
        relinked_from(link_syntax(text, url) + tail, 0, as_html) == (if as_html {
            anchor_open_mark() + url + anchor_text_mark() + text + close_mark()
        } else {
            text
        }) + relinked_from(tail, 0, as_html),
{
    lemma_written_link_reads_back(text, url, tail);
    lemma_relinked_shift(link_syntax(text, url), tail, 0, as_html);
}

proof fn lemma_relinked_of_plain(s: Seq<char>, i: int, as_html: bool)
    requires
        0 <= i <= s.len(),
        lacks(s, '['),
    ensures
        relinked_from(s, i, as_html) == s.skip(i),
    decreases s.len() - i,
{
    if i < s.len() {
        lemma_relinked_of_plain(s, i + 1, as_html);
    }
}

/// A text without `[` holds no link, and is left as it is.
pub proof fn lemma_unlinked_of_plain(s: Seq<char>)
    requires
        lacks(s, '['),
    ensures
        unlinked(s) == s,
        html_linked(s) == s,
{
    lemma_relinked_of_plain(s, 0, false);
    lemma_relinked_of_plain(s, 0, true);
}

} // verus!
