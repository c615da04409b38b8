//! Normalising a table cell: its inner markup becomes text, with the cell's
//! link kept in the portable link syntax or dropped.

use crate::error::ExtractError;
use crate::links::anchor_open_mark;
use crate::links::anchor_text_mark;
use crate::links::lemma_relinked_written_link;
use crate::links::lemma_unlinked_of_plain;
use crate::links::lemma_written_link_reads_back;
use crate::links::link_at;
use crate::links::link_syntax;
use crate::links::middle_mark;
use crate::links::unlinked;
use crate::markup::Anchor;
use crate::markup::close_mark;
use crate::markup::find_anchor;
use crate::markup::href_mark;
use crate::markup::lemma_last_reading_is;
use crate::markup::lemma_without_tags_of_plain;
use crate::markup::lemma_anchor_well_placed;
use crate::markup::locate_anchor;
use crate::markup::push_without_tags;
use crate::markup::without_tags;
use crate::text::chars_of;
use crate::text::lacks;
use crate::text::lemma_trimmed_lacks;
use crate::text::lemma_first_char_from;
use crate::text::lemma_first_char_is;
use crate::text::lemma_first_occurrence_is;
use crate::text::occurs_at;
use crate::text::push_range;
use crate::text::string_of;
use crate::text::trim_from;
use crate::text::trimmed;
use vstd::prelude::*;

verus! {

/// The origin that a site-relative link target is resolved against.
pub const SITE_ORIGIN: &'static str = "https://wiki.guildwars.com";

/// `s` with every `)` written as `%29`.
pub open spec fn escape_parens(s: Seq<char>) -> Seq<char>
    decreases s.len(),
{
    if s.len() == 0 {
        Seq::empty()
    } else if s.last() == ')' {
        escape_parens(s.drop_last()) + seq!['%', '2', '9']
    } else {
        escape_parens(s.drop_last()).push(s.last())
    }
}

/// Whether a link target is site-relative: it starts with `/`.
pub open spec fn site_relative(href: Seq<char>) -> bool {
    href.len() > 0 && href[0] == '/'
}

/// The URL a cell's link is emitted with: every `)` of the target escaped,
/// and the site's origin in front of a site-relative target.
pub open spec fn link_url(href: Seq<char>) -> Seq<char> {
    if site_relative(href) {
        SITE_ORIGIN@ + escape_parens(href)
    } else {
        escape_parens(href)
    }
}

/// What follows the anchor's place in a normalised cell: nothing where only
/// white space follows the anchor, else a space and the rest without its
/// surrounding white space and its tags.
pub open spec fn cell_suffix(rest: Seq<char>) -> Seq<char> {
    if trimmed(rest).len() == 0 {
        Seq::empty()
    } else {
        seq![' '] + without_tags(trimmed(rest))
    }
}

/// The inner text of the anchor `a` of `s`.
pub open spec fn anchor_text(s: Seq<char>, a: Anchor) -> Seq<char> {
    s.subrange(a.text_start, a.text_end)
}

/// The link target of the anchor `a` of `s`.
pub open spec fn anchor_href(s: Seq<char>, a: Anchor) -> Seq<char> {
    s.subrange(a.href_start, a.href_end)
}

/// A cell's markup as text. With an anchor in it: the anchor's text, as a
/// link to its target if `keep_link`, and then the suffix. Without one: the
/// markup without its tags.
pub open spec fn normalized_cell(s: Seq<char>, keep_link: bool) -> Seq<char> {
    match find_anchor(s) {
        Some(a) => (if keep_link {
            link_syntax(anchor_text(s, a), link_url(anchor_href(s, a)))
        } else {
            anchor_text(s, a)
        }) + cell_suffix(s.skip(a.end)),
        None => without_tags(s),
    }
}

fn push_escaped(out: &mut Vec<char>, s: &Vec<char>, from: usize, to: usize)
    requires
        from <= to <= s.len(),
    ensures
        final(out)@ == old(out)@ + escape_parens(s@.subrange(from as int, to as int)),
{
    let mut i: usize = from;
    while i < to
        invariant
            from <= i <= to <= s.len(),
            out@ == old(out)@ + escape_parens(s@.subrange(from as int, i as int)),
        decreases to - i,
    {
        assert(s@.subrange(from as int, i + 1).drop_last() == s@.subrange(from as int, i as int));
        if s[i] == ')' {
            out.push('%');
            out.push('2');
            out.push('9');
        } else {
            out.push(s[i]);
        }
        i += 1;
    }
}

fn normalize(html: &str, keep_link: bool) -> (text: String)
    ensures
        text@ == normalized_cell(html@, keep_link),
{
    let s = chars_of(html);
    let mut out: Vec<char> = Vec::new();
    match locate_anchor(&s) {
        Some(a) => {
            if keep_link {
                out.push('[');
                push_range(&mut out, &s, a.text_start, a.text_end);
                out.push(']');
                out.push('(');
                if s[a.href_start] == '/' {
                    let origin = chars_of(SITE_ORIGIN);
                    push_range(&mut out, &origin, 0, origin.len());
                }
                push_escaped(&mut out, &s, a.href_start, a.href_end);
                out.push(')');
            } else {
                push_range(&mut out, &s, a.text_start, a.text_end);
            }
            let rest = trim_from(&s, a.end);
            if rest.len() > 0 {
                out.push(' ');
                push_without_tags(&mut out, &rest);
            }
        },
        None => {
            push_without_tags(&mut out, &s);
        },
    }
    string_of(&out)
}

/// The cell's markup as text with its link kept: `[text](url)` for the first
/// anchor that has a target, then what follows the anchor; the markup without
/// its tags where there is no such anchor.
pub fn convert_link(html: &str) -> (r: Result<String, ExtractError>)
    ensures
        r matches Ok(text) && text@ == normalized_cell(html@, true),
{
    Ok(normalize(html, true))
}

/// The cell's markup as text with its link dropped: the text of the first
/// anchor that has a target, then what follows the anchor; the markup without
/// its tags where there is no such anchor.
pub fn strip_link(html: &str) -> (r: Result<String, ExtractError>)
    ensures
        r matches Ok(text) && text@ == normalized_cell(html@, false),
{
    Ok(normalize(html, false))
}

/// Escaping leaves no `)` and takes nothing away; it brings in no line feed,
/// and a text without `)` stays as it is.
pub proof fn lemma_escaped(s: Seq<char>)
    ensures
        forall|j: int| 0 <= j < escape_parens(s).len() ==> escape_parens(s)[j] != ')',
        escape_parens(s).len() >= s.len(),
        (forall|j: int| 0 <= j < s.len() ==> s[j] != '\n') ==> (forall|j: int|
            0 <= j < escape_parens(s).len() ==> escape_parens(s)[j] != '\n'),
        (forall|j: int| 0 <= j < s.len() ==> s[j] != ')') ==> escape_parens(s) == s,
    decreases s.len(),
{
    if s.len() > 0 {
        lemma_escaped(s.drop_last());
    }
}

proof fn lemma_origin()
    ensures
        SITE_ORIGIN@.len() == 26,
        forall|j: int| 0 <= j < 26 ==> SITE_ORIGIN@[j] != ')' && SITE_ORIGIN@[j] != '\n',
{
    reveal_strlit("https://wiki.guildwars.com");
}

/// The URL a link is emitted with holds no `)`: every one of the target is
/// escaped, and the origin has none.
pub proof fn lemma_link_url_has_no_paren(href: Seq<char>)
    ensures
        forall|j: int| 0 <= j < link_url(href).len() ==> link_url(href)[j] != ')',
        link_url(href).len() >= href.len(),
{
    lemma_escaped(href);
    lemma_origin();
}

/// A cell without an anchor is the same text in both modes: its markup
/// without the tags.
pub proof fn lemma_cell_without_anchor(s: Seq<char>)
    requires
        find_anchor(s) is None,
    ensures
        normalized_cell(s, true) == normalized_cell(s, false),
        normalized_cell(s, true) == without_tags(s),
{
}

/// The link a cell keeps is not broken by its URL: where the target holds no
/// line feed and `](` stands nowhere in the anchor's text after its first
/// character, the link that is read at the start of the normalised cell has
/// the anchor's text and the whole emitted URL, wherever the target has a `)`.
pub proof fn lemma_kept_link_reads_back(s: Seq<char>)
    requires
        find_anchor(s) is Some,
        forall|j: int| 1 <= j ==> !occurs_at(anchor_text(s, find_anchor(s)->0), middle_mark(), j),
        forall|j: int|
            0 <= j < anchor_href(s, find_anchor(s)->0).len() ==> anchor_href(
                s,
                find_anchor(s)->0,
            )[j] != '\n',
    ensures
        link_at(normalized_cell(s, true), 0) matches Some(link) && normalized_cell(
            s,
            true,
        ).subrange(link.text_start, link.text_end) == anchor_text(s, find_anchor(s)->0)
            && normalized_cell(s, true).subrange(link.url_start, link.url_end) == link_url(
            anchor_href(s, find_anchor(s)->0),
        ),
{
    let a = find_anchor(s)->0;
    lemma_anchor_well_placed(s);
    lemma_escaped(anchor_href(s, a));
    lemma_origin();
    lemma_written_link_reads_back(
        anchor_text(s, a),
        link_url(anchor_href(s, a)),
        cell_suffix(s.skip(a.end)),
    );
}

/// Taking the link syntax out of a cell with its link kept gives the cell
/// with its link dropped: the anchor's text and the suffix. This holds where
/// the target holds no line feed, `](` stands nowhere in the anchor's text
/// after its first character, and the suffix holds no link of its own. Where
/// the cell with its link dropped holds no tag either, taking the tags out as
/// well changes nothing.
pub proof fn lemma_unlinked_cell_is_plain_cell(s: Seq<char>)
    requires
        find_anchor(s) is Some,
        forall|j: int| 1 <= j ==> !occurs_at(anchor_text(s, find_anchor(s)->0), middle_mark(), j),
        forall|j: int|
            0 <= j < anchor_href(s, find_anchor(s)->0).len() ==> anchor_href(
                s,
                find_anchor(s)->0,
            )[j] != '\n',
        unlinked(cell_suffix(s.skip(find_anchor(s)->0.end))) == cell_suffix(
            s.skip(find_anchor(s)->0.end),
        ),
    ensures
        unlinked(normalized_cell(s, true)) == normalized_cell(s, false),
        without_tags(normalized_cell(s, false)) == normalized_cell(s, false) ==> without_tags(
            unlinked(normalized_cell(s, true)),
        ) == normalized_cell(s, false),
{
    let a = find_anchor(s)->0;
    lemma_anchor_well_placed(s);
    lemma_escaped(anchor_href(s, a));
    lemma_origin();
    lemma_relinked_written_link(
        anchor_text(s, a),
        link_url(anchor_href(s, a)),
        cell_suffix(s.skip(a.end)),
        false,
    );
}

/// Markup of the plain form `<a href="H">T</a>`, with `after` behind it.
pub open spec fn plain_anchor(href: Seq<char>, text: Seq<char>, after: Seq<char>) -> Seq<char> {
    anchor_open_mark() + href + anchor_text_mark() + text + close_mark() + after
}

/// Whether a link target can stand in the plain form: it is not empty, holds
/// no `"` and no `>`, and does not end in `=`.
pub open spec fn plain_href(href: Seq<char>) -> bool {
    href.len() >= 1 && lacks(href, '"') && lacks(href, '>') && href.last() != '='
}

/// Whether an inner text can stand in the plain form: it is not empty and
/// holds no `<` and no line feed.
pub open spec fn plain_text(text: Seq<char>) -> bool {
    text.len() >= 1 && lacks(text, '<') && lacks(text, '\n')
}

/// In markup of the plain form the anchor is found as it was written: its
/// target is `href`, its text is `text`, and it ends where `after` begins.
pub proof fn lemma_plain_anchor_found(href: Seq<char>, text: Seq<char>, after: Seq<char>)
    requires
        plain_href(href),
        plain_text(text),
    ensures
        find_anchor(plain_anchor(href, text, after)) == Some(
            Anchor {
                start: 0,
                href_start: 9,
                href_end: 9 + href.len() as int,
                text_start: 11 + href.len() as int,
                text_end: 11 + href.len() as int + text.len() as int,
                end: 15 + href.len() as int + text.len() as int,
            },
        ),
        anchor_href(plain_anchor(href, text, after), find_anchor(plain_anchor(href, text, after))->0)
            == href,
        anchor_text(plain_anchor(href, text, after), find_anchor(plain_anchor(href, text, after))->0)
            == text,
        plain_anchor(href, text, after).skip(15 + href.len() as int + text.len() as int) == after,
{
    let s = plain_anchor(href, text, after);
    let h = href.len() as int;
    let t = text.len() as int;
    assert forall|j: int| 0 <= j < 9 implies s[j] == anchor_open_mark()[j] by {}
    lemma_first_char_is(s, '>', 3, 10 + h);
    assert(occurs_at(s, href_mark(), 3)) by {
        assert(s.subrange(3, 9) == href_mark());
    }
    lemma_first_char_is(s, '"', 9, 9 + h);
    assert(occurs_at(s, close_mark(), 11 + h + t)) by {
        assert(s.subrange(11 + h + t, 15 + h + t) == close_mark());
    }
    lemma_first_occurrence_is(s, close_mark(), 12 + h, 11 + h + t);
    lemma_first_char_from(s, '\n', 11 + h);
    lemma_last_reading_is(s, 0, 3, 4 + h);
}

/// A cell of the plain form, `<a href="H">T</a>` and what follows it, with
/// its link kept: `[T](U)` and the suffix, where `U` is `H` with `%29` for
/// every `)`, behind the site's origin if `H` is site-relative. `U` holds no
/// `)`, so the first `)` behind `](` is the one that closes the link. With its
/// link dropped the cell is `T` and the suffix.
pub proof fn lemma_plain_anchor_cell(href: Seq<char>, text: Seq<char>, after: Seq<char>)
    requires
        plain_href(href),
        plain_text(text),
    ensures
        normalized_cell(plain_anchor(href, text, after), true) == seq!['['] + text + seq![
            ']',
            '(',
        ] + link_url(href) + seq![')'] + cell_suffix(after),
        normalized_cell(plain_anchor(href, text, after), false) == text + cell_suffix(after),
        site_relative(href) ==> link_url(href) == SITE_ORIGIN@ + escape_parens(href),
        lacks(link_url(href), ')'),
        lacks(href, ')') ==> escape_parens(href) == href,
{
    lemma_plain_anchor_found(href, text, after);
    lemma_link_url_has_no_paren(href);
    lemma_escaped(href);
}

/// The suffix of what follows an anchor, where that holds no tag: nothing, or
/// a space and what follows without the white space around it.
pub proof fn lemma_suffix_of_plain(after: Seq<char>)
    requires
        lacks(after, '<'),
    ensures
        cell_suffix(after) == if trimmed(after).len() == 0 {
            Seq::<char>::empty()
        } else {
            seq![' '] + trimmed(after)
        },
{
    lemma_trimmed_lacks(after, '<');
    lemma_without_tags_of_plain(trimmed(after));
}

/// The round trip for a cell of the plain form: where the target holds no
/// line feed, the text no `]`, and what follows the anchor neither `<` nor
/// `[`, taking the link syntax out of the cell with its link kept gives the
/// text and the suffix, which is the cell with its link dropped; taking the
/// tags out as well changes nothing.
pub proof fn lemma_plain_anchor_round_trip(href: Seq<char>, text: Seq<char>, after: Seq<char>)
    requires
        plain_href(href),
        plain_text(text),
        lacks(href, '\n'),
        lacks(text, ']'),
        lacks(after, '<'),
        lacks(after, '['),
    ensures
        unlinked(normalized_cell(plain_anchor(href, text, after), true)) == text + cell_suffix(
            after,
        ),
        without_tags(unlinked(normalized_cell(plain_anchor(href, text, after), true))) == text
            + cell_suffix(after),
        normalized_cell(plain_anchor(href, text, after), false) == text + cell_suffix(after),
{
    let s = plain_anchor(href, text, after);
    lemma_plain_anchor_found(href, text, after);
    lemma_suffix_of_plain(after);
    lemma_trimmed_lacks(after, '<');
    lemma_trimmed_lacks(after, '[');
    let suffix = cell_suffix(after);
    assert(lacks(suffix, '[') && lacks(suffix, '<'));
    lemma_unlinked_of_plain(suffix);
    lemma_unlinked_cell_is_plain_cell(s);
    let plain = text + suffix;
    lemma_without_tags_of_plain(plain);
}

} // verus!
