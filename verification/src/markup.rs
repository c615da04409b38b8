//! The inline markup of a table cell: where its tags are, and where its first
//! anchor with a link target is.

use crate::text::char_is_space;
use crate::text::find_char_from;
use crate::text::find_from;
use crate::text::first_char_from;
use crate::text::first_occurrence_from;
use crate::text::has_at;
use crate::text::is_space;
use crate::text::lacks;
use crate::text::lemma_first_char_from;
use crate::text::lemma_first_char_is;
use crate::text::lemma_first_char_shift;
use crate::text::lemma_first_occurrence_from;
use crate::text::occurs_at;
use vstd::prelude::*;

verus! {

/// The index just past the tag that opens at `i`, if one does: a `<`, then one
/// or more characters other than `>`, then `>`.
pub open spec fn tag_end(s: Seq<char>, i: int) -> Option<int> {
    let close = first_char_from(s, '>', i + 1);
    if 0 <= i < s.len() && s[i] == '<' && i + 1 < close < s.len() {
        Some(close + 1)
    } else {
        None
    }
}

/// What is left of `s` from index `i` on when every tag is taken out, read
/// from the left: a tag that opens inside another is part of that one.
pub open spec fn without_tags_from(s: Seq<char>, i: int) -> Seq<char>
    decreases s.len() - i,
{
    if i < 0 || i >= s.len() {
        Seq::empty()
    } else if tag_end(s, i) is Some && tag_end(s, i)->0 > i {
        without_tags_from(s, tag_end(s, i)->0)
    } else {
        seq![s[i]] + without_tags_from(s, i + 1)
    }
}

/// What is left of `s` when every tag is taken out.
pub open spec fn without_tags(s: Seq<char>) -> Seq<char> {
    without_tags_from(s, 0)
}

/// Appends to `out` what is left of `s` without its tags.
pub fn push_without_tags(out: &mut Vec<char>, s: &Vec<char>)
    ensures
        final(out)@ == old(out)@ + without_tags(s@),
{
    let mut i: usize = 0;
    while i < s.len()
        invariant
            i <= s.len(),
            out@ + without_tags_from(s@, i as int) == old(out)@ + without_tags(s@),
        decreases s.len() - i,
    {
        let mut next: usize = i + 1;
        if s[i] == '<' {
            let close = find_char_from(s, '>', i + 1);
            if i + 1 < close && close < s.len() {
                next = close + 1;
            } else {
                out.push(s[i]);
            }
        } else {
            out.push(s[i]);
        }
        i = next;
    }
}

proof fn lemma_no_close_left(s: Seq<char>, i: int)
    requires
        0 <= i,
        forall|m: int| i <= m < s.len() ==> s[m] != '>',
    ensures
        forall|k: int|
            0 <= k < without_tags_from(s, i).len() ==> without_tags_from(s, i)[k] != '>',
    decreases s.len() - i,
{
    if i < s.len() {
        lemma_first_char_from(s, '>', i + 1);
        lemma_no_close_left(s, i + 1);
        assert(without_tags_from(s, i) == seq![s[i]] + without_tags_from(s, i + 1));
    }
}

proof fn lemma_tag_end_behind(c: char, t: Seq<char>, k: int)
    requires
        0 <= k,
    ensures
        tag_end(seq![c] + t, k + 1) is None <==> tag_end(t, k) is None,
{
    let a = seq![c];
    lemma_first_char_shift(a, t, '>', k + 1);
}

proof fn lemma_no_tag_left_from(s: Seq<char>, i: int)
    requires
        0 <= i,
    ensures
        forall|k: int| (#[trigger] tag_end(without_tags_from(s, i), k)) is None,
    decreases s.len() - i,
{
    let w = without_tags_from(s, i);
    if i < s.len() {
        if tag_end(s, i) is Some && tag_end(s, i)->0 > i {
            lemma_no_tag_left_from(s, tag_end(s, i)->0);
        } else {
            let rest = without_tags_from(s, i + 1);
            lemma_no_tag_left_from(s, i + 1);
            assert forall|k: int| (#[trigger] tag_end(w, k)) is None by {
                if k >= 1 {
                    lemma_tag_end_behind(s[i], rest, k - 1);
                } else if k == 0 && s[i] == '<' {
                    let close = first_char_from(s, '>', i + 1);
                    lemma_first_char_from(s, '>', i + 1);
                    if close >= s.len() {
                        lemma_no_close_left(s, i + 1);
                        lemma_first_char_is(w, '>', 1, w.len() as int);
                    }
                }
            }
        }
    }
}

proof fn lemma_without_tags_keeps(t: Seq<char>, i: int)
    requires
        0 <= i <= t.len(),
        forall|k: int| (#[trigger] tag_end(t, k)) is None,
    ensures
        without_tags_from(t, i) == t.skip(i),
    decreases t.len() - i,
{
    if i < t.len() {
        lemma_without_tags_keeps(t, i + 1);
    }
}

/// What is left without tags holds no tag, so taking the tags out again
/// changes nothing.
pub proof fn lemma_no_tag_left(s: Seq<char>)
    ensures
        forall|k: int| (#[trigger] tag_end(without_tags(s), k)) is None,
        without_tags(without_tags(s)) == without_tags(s),
{
    lemma_no_tag_left_from(s, 0);
    lemma_without_tags_keeps(without_tags(s), 0);
}

/// The places of an anchor in a cell's markup, as indices into its
/// characters: the link target is `href_start..href_end`, the inner text
/// `text_start..text_end`, and `end` is just past the closing tag.
pub struct Anchor {
    pub start: int,
    pub href_start: int,
    pub href_end: int,
    pub text_start: int,
    pub text_end: int,
    pub end: int,
}

/// The places of an anchor that was found.
#[derive(Clone, Copy, Debug)]
pub struct AnchorSpan {
    pub start: usize,
    pub href_start: usize,
    pub href_end: usize,
    pub text_start: usize,
    pub text_end: usize,
    pub end: usize,
}

impl View for AnchorSpan {
    type V = Anchor;

    open spec fn view(&self) -> Anchor {
        Anchor {
            start: self.start as int,
            href_start: self.href_start as int,
            href_end: self.href_end as int,
            text_start: self.text_start as int,
            text_end: self.text_end as int,
            end: self.end as int,
        }
    }
}

/// The characters that introduce a link target inside an opening tag.
pub open spec fn href_mark() -> Seq<char> {
    seq!['h', 'r', 'e', 'f', '=', '"']
}

/// The characters that close an anchor.
pub open spec fn close_mark() -> Seq<char> {
    seq!['<', '/', 'a', '>']
}

/// Whether an anchor's opening tag starts at `i`: `<a` and a white space.
pub open spec fn opens_anchor(s: Seq<char>, i: int) -> bool {
    &&& 0 <= i
    &&& i + 2 < s.len()
    &&& s[i] == '<'
    &&& s[i + 1] == 'a'
    &&& is_space(s[i + 2])
}

/// The anchor that opens at `i` and takes its link target from the `href="`
/// at `p`, if the markup can be read so. The opening tag holds no `>` up to
/// and including that `href="`; the target is not empty and ends at the next
/// `"`; the opening tag ends at the next `>` after that; the inner text is
/// not empty, holds no line feed, and ends where `</a>` first stands after its
/// first character.
pub open spec fn anchor_reading(s: Seq<char>, i: int, p: int) -> Option<Anchor> {
    let quote = first_char_from(s, '"', p + 6);
    let close = first_char_from(s, '>', quote + 1);
    let done = first_occurrence_from(s, close_mark(), close + 2);
    if opens_anchor(s, i) && i + 3 <= p && p + 6 <= first_char_from(s, '>', i + 3) && occurs_at(
        s,
        href_mark(),
        p,
    ) && p + 6 < quote < s.len() && close < s.len() && done < s.len() && first_char_from(
        s,
        '\n',
        close + 1,
    ) >= done {
        Some(
            Anchor {
                start: i,
                href_start: p + 6,
                href_end: quote,
                text_start: close + 1,
                text_end: done,
                end: done + 4,
            },
        )
    } else {
        None
    }
}

/// The reading of the anchor that opens at `i` with the last `href="` at or
/// before `p` that gives one.
pub open spec fn last_reading(s: Seq<char>, i: int, p: int) -> Option<Anchor>
    decreases p - i,
{
    if p < i + 3 {
        None
    } else if anchor_reading(s, i, p) is Some {
        anchor_reading(s, i, p)
    } else {
        last_reading(s, i, p - 1)
    }
}

/// The anchor that opens at `i`, if one does. Where the opening tag holds
/// several `href="`, the last one that gives a reading counts.
pub open spec fn anchor_at(s: Seq<char>, i: int) -> Option<Anchor> {
    last_reading(s, i, first_char_from(s, '>', i + 3) - 6)
}

/// The first anchor of `s` that opens at or after `i`.
pub open spec fn first_anchor_from(s: Seq<char>, i: int) -> Option<Anchor>
    decreases s.len() - i,
{
    if i < 0 || i >= s.len() {
        None
    } else if anchor_at(s, i) is Some {
        anchor_at(s, i)
    } else {
        first_anchor_from(s, i + 1)
    }
}

/// The first anchor of `s` with a link target and an inner text.
pub open spec fn find_anchor(s: Seq<char>) -> Option<Anchor> {
    first_anchor_from(s, 0)
}

/// Whether the places of `a` lie in `s` in their order, the link target free
/// of `"`, the inner text free of line feeds and closed by `</a>`.
pub open spec fn well_placed(s: Seq<char>, a: Anchor) -> bool {
    &&& 0 <= a.start
    &&& a.start + 9 <= a.href_start
    &&& a.href_start < a.href_end
    &&& a.href_end < a.text_start
    &&& a.text_start < a.text_end
    &&& a.end == a.text_end + 4
    &&& a.end <= s.len()
    &&& forall|j: int| a.href_start <= j < a.href_end ==> s[j] != '"'
    &&& forall|j: int| a.text_start <= j < a.text_end ==> s[j] != '\n'
    &&& occurs_at(s, close_mark(), a.text_end)
}

proof fn lemma_reading_well_placed(s: Seq<char>, i: int, p: int)
    ensures
        anchor_reading(s, i, p) matches Some(a) ==> well_placed(s, a) && a.start == i,
{
    if anchor_reading(s, i, p) is Some {
        let quote = first_char_from(s, '"', p + 6);
        let close = first_char_from(s, '>', quote + 1);
        lemma_first_char_from(s, '"', p + 6);
        lemma_first_char_from(s, '>', quote + 1);
        lemma_first_occurrence_from(s, close_mark(), close + 2);
        lemma_first_char_from(s, '\n', close + 1);
    }
}

proof fn lemma_last_reading_well_placed(s: Seq<char>, i: int, p: int)
    ensures
        last_reading(s, i, p) matches Some(a) ==> well_placed(s, a) && a.start == i,
    decreases p - i,
{
    if p >= i + 3 {
        lemma_reading_well_placed(s, i, p);
        lemma_last_reading_well_placed(s, i, p - 1);
    }
}

proof fn lemma_first_anchor_well_placed(s: Seq<char>, i: int)
    ensures
        first_anchor_from(s, i) matches Some(a) ==> well_placed(s, a) && i <= a.start,
    decreases s.len() - i,
{
    if 0 <= i < s.len() {
        lemma_last_reading_well_placed(s, i, first_char_from(s, '>', i + 3) - 6);
        lemma_first_anchor_well_placed(s, i + 1);
    }
}

/// The anchor that is found lies in the markup: its places are in order, its
/// target holds no `"`, its text holds no line feed and `</a>` follows it.
pub proof fn lemma_anchor_well_placed(s: Seq<char>)
    ensures
        find_anchor(s) matches Some(a) ==> well_placed(s, a),
{
    lemma_first_anchor_well_placed(s, 0);
}

/// Whether `a` is the anchor of `s` that counts, read with the `href="` at
/// `p`: no later `href="` of its opening tag gives a reading, and nothing
/// that starts before it can be read as an anchor.
pub open spec fn is_chosen_reading(s: Seq<char>, a: Anchor, p: int) -> bool {
    &&& anchor_reading(s, a.start, p) == Some(a)
    &&& forall|q: int| q > p ==> (#[trigger] anchor_reading(s, a.start, q)) is None
    &&& forall|i: int, q: int| i < a.start ==> (#[trigger] anchor_reading(s, i, q)) is None
}

/// The `href="` that `last_reading` reads the anchor at `i` with: the last at
/// or before `p` that gives a reading; an index before `i + 3` if none does.
spec fn chosen_href(s: Seq<char>, i: int, p: int) -> int
    decreases p - i,
{
    if p < i + 3 || anchor_reading(s, i, p) is Some {
        p
    } else {
        chosen_href(s, i, p - 1)
    }
}

proof fn lemma_last_reading(s: Seq<char>, i: int, p: int)
    ensures
        chosen_href(s, i, p) <= p,
        last_reading(s, i, p) == anchor_reading(s, i, chosen_href(s, i, p)),
        forall|q: int|
            chosen_href(s, i, p) < q <= p ==> (#[trigger] anchor_reading(s, i, q)) is None,
    decreases p - i,
{
    if p >= i + 3 && anchor_reading(s, i, p) is None {
        lemma_last_reading(s, i, p - 1);
    }
}

/// The `href="` that the first anchor at or after `i` is read with.
spec fn first_anchor_href(s: Seq<char>, i: int) -> int
    decreases s.len() - i,
{
    if i < 0 || i >= s.len() || anchor_at(s, i) is Some {
        chosen_href(s, i, first_char_from(s, '>', i + 3) - 6)
    } else {
        first_anchor_href(s, i + 1)
    }
}

proof fn lemma_first_anchor(s: Seq<char>, i: int)
    requires
        0 <= i,
    ensures
        match first_anchor_from(s, i) {
            Some(a) => i <= a.start && anchor_reading(s, a.start, first_anchor_href(s, i))
                == Some(a) && (forall|q: int|
                q > first_anchor_href(s, i) ==> (#[trigger] anchor_reading(s, a.start, q))
                    is None) && (forall|j: int, q: int|
                i <= j < a.start ==> (#[trigger] anchor_reading(s, j, q)) is None),
            None => forall|j: int, q: int| i <= j ==> (#[trigger] anchor_reading(s, j, q)) is None,
        },
    decreases s.len() - i,
{
    if i < s.len() {
        let top = first_char_from(s, '>', i + 3) - 6;
        lemma_last_reading(s, i, top);
        if anchor_at(s, i) is None {
            lemma_first_anchor(s, i + 1);
            assert forall|q: int| (#[trigger] anchor_reading(s, i, q)) is None by {
                if q <= chosen_href(s, i, top) {
                    lemma_chosen_is_last(s, i, top, q);
                }
            }
        }
    }
}

proof fn lemma_chosen_is_last(s: Seq<char>, i: int, p: int, q: int)
    requires
        last_reading(s, i, p) is None,
        q <= chosen_href(s, i, p),
    ensures
        anchor_reading(s, i, q) is None,
    decreases p - i,
{
    if p >= i + 3 {
        lemma_chosen_is_last(s, i, p - 1, q);
    }
}

/// The reading with the `href="` at `p` is the one that counts among those up
/// to `top` if none after it up to `top` gives a reading.
pub proof fn lemma_last_reading_is(s: Seq<char>, i: int, p: int, top: int)
    requires
        i + 3 <= p <= top,
        anchor_reading(s, i, p) is Some,
        forall|q: int| p < q <= top ==> (#[trigger] anchor_reading(s, i, q)) is None,
    ensures
        last_reading(s, i, top) == anchor_reading(s, i, p),
    decreases top - p,
{
    if p < top {
        lemma_last_reading_is(s, i, p, top - 1);
    }
}

/// Which anchor is found: the first of the cell, read with the last `href="`
/// of its opening tag that gives a reading. None is found only where nothing
/// in the cell can be read as an anchor.
pub proof fn lemma_find_anchor_is_first(s: Seq<char>)
    ensures
        match find_anchor(s) {
            Some(a) => exists|p: int| is_chosen_reading(s, a, p),
            None => forall|i: int, q: int| (#[trigger] anchor_reading(s, i, q)) is None,
        },
{
    lemma_first_anchor(s, 0);
    if find_anchor(s) is Some {
        assert(is_chosen_reading(s, find_anchor(s)->0, first_anchor_href(s, 0)));
    }
}

fn read_anchor(s: &Vec<char>, i: usize, p: usize, gap: usize) -> (r: Option<AnchorSpan>)
    requires
        opens_anchor(s@, i as int),
        gap == first_char_from(s@, '>', i + 3),
        i + 3 <= p,
        p + 6 <= gap,
    ensures
        r matches Some(a) ==> anchor_reading(s@, i as int, p as int) == Some(a@),
        r is None ==> anchor_reading(s@, i as int, p as int) is None,
{
    let mark: [char; 6] = ['h', 'r', 'e', 'f', '=', '"'];
    if !has_at(s, mark.as_slice(), p) {
        return None;
    }
    let quote = find_char_from(s, '"', p + 6);
    if quote <= p + 6 || quote >= s.len() {
        return None;
    }
    let close = find_char_from(s, '>', quote + 1);
    if close >= s.len() || s.len() - close <= 2 {
        return None;
    }
    let closing: [char; 4] = ['<', '/', 'a', '>'];
    let done = find_from(s, closing.as_slice(), close + 2);
    if done >= s.len() {
        return None;
    }
    let feed = find_char_from(s, '\n', close + 1);
    if feed < done {
        return None;
    }
    proof {
        lemma_first_occurrence_from(s@, close_mark(), close + 2);
    }
    Some(
        AnchorSpan {
            start: i,
            href_start: p + 6,
            href_end: quote,
            text_start: close + 1,
            text_end: done,
            end: done + 4,
        },
    )
}

fn anchor_opening_at(s: &Vec<char>, i: usize) -> (r: Option<AnchorSpan>)
    requires
        i < s.len(),
    ensures
        r matches Some(a) ==> anchor_at(s@, i as int) == Some(a@),
        r is None ==> anchor_at(s@, i as int) is None,
{
    if s.len() - i < 3 || s[i] != '<' || s[i + 1] != 'a' || !char_is_space(s[i + 2]) {
        proof {
            lemma_no_reading(s@, i as int, first_char_from(s@, '>', i + 3) - 6);
        }
        return None;
    }
    let gap = find_char_from(s, '>', i + 3);
    if gap - i < 9 {
        return None;
    }
    let mut p: usize = gap - 6;
    while p >= i + 3
        invariant
            opens_anchor(s@, i as int),
            gap == first_char_from(s@, '>', i + 3),
            i + 2 <= p <= gap - 6,
            anchor_at(s@, i as int) == last_reading(s@, i as int, p as int),
        decreases p,
    {
        let reading = read_anchor(s, i, p, gap);
        if reading.is_some() {
            return reading;
        }
        p -= 1;
    }
    None
}

proof fn lemma_no_reading(s: Seq<char>, i: int, p: int)
    requires
        forall|q: int| anchor_reading(s, i, q) is None,
    ensures
        last_reading(s, i, p) is None,
    decreases p - i,
{
    if p >= i + 3 {
        lemma_no_reading(s, i, p - 1);
    }
}

/// Finds the first anchor of `s` with a link target and an inner text.
pub fn locate_anchor(s: &Vec<char>) -> (r: Option<AnchorSpan>)
    ensures
        r matches Some(a) ==> find_anchor(s@) == Some(a@) && well_placed(s@, a@),
        r is None ==> find_anchor(s@) is None,
{
    let mut i: usize = 0;
    while i < s.len()
        invariant
            i <= s.len(),
            find_anchor(s@) == first_anchor_from(s@, i as int),
        decreases s.len() - i,
    {
        let found = anchor_opening_at(s, i);
        if found.is_some() {
            proof {
                lemma_anchor_well_placed(s@);
            }
            return found;
        }
        i += 1;
    }
    None
}

/// A text without `<` holds no tag, and is left as it is.
pub proof fn lemma_without_tags_of_plain(s: Seq<char>)
    requires
        lacks(s, '<'),
    ensures
        without_tags(s) == s,
{
    lemma_without_tags_keeps(s, 0);
}

} // verus!
