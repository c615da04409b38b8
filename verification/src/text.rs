//! Character sequences: the view every string in this crate is reasoned about
//! through, with the searches and the trimming the scanners are built from.

use vstd::prelude::*;

verus! {

/// The characters with the Unicode `White_Space` property.
pub open spec fn is_space(c: char) -> bool {
    let n = c as u32;
    ||| 0x09 <= n <= 0x0D
    ||| n == 0x20
    ||| n == 0x85
    ||| n == 0xA0
    ||| n == 0x1680
    ||| 0x2000 <= n <= 0x200A
    ||| n == 0x2028
    ||| n == 0x2029
    ||| n == 0x202F
    ||| n == 0x205F
    ||| n == 0x3000
}

/// Whether `c` is white space.
pub fn char_is_space(c: char) -> (r: bool)
    ensures
        r == is_space(c),
{
    let n: u32 = c as u32;
    (0x09 <= n && n <= 0x0D) || n == 0x20 || n == 0x85 || n == 0xA0 || n == 0x1680 || (0x2000 <= n
        && n <= 0x200A) || n == 0x2028 || n == 0x2029 || n == 0x202F || n == 0x205F || n == 0x3000
}

/// The characters of `s`, in order.
pub fn chars_of(s: &str) -> (v: Vec<char>)
    ensures
        v@ == s@,
{
    let mut v: Vec<char> = Vec::new();
    for c in it: s.chars()
        invariant
            v@ == it.seq().take(it.index()),
            it.seq() == s@,
    {
        v.push(c);
    }
    v
}

/// `String::push`: afterwards the string holds what it held before, and `c`
/// behind it.
#[verifier::external_body]
pub(crate) fn push_char(s: &mut String, c: char)
    ensures
        final(s)@ == old(s)@.push(c),
{
    s.push(c)
}

/// The string that holds the characters of `v`, in order.
pub fn string_of(v: &Vec<char>) -> (s: String)
    ensures
        s@ == v@,
{
    let mut s = String::new();
    let mut i: usize = 0;
    while i < v.len()
        invariant
            i <= v.len(),
            s@ == v@.take(i as int),
        decreases v.len() - i,
    {
        push_char(&mut s, v[i]);
        i += 1;
    }
    s
}

/// The least index at or after `from` at which `s` holds `c`; the length of
/// `s` where there is none.
pub open spec fn first_char_from(s: Seq<char>, c: char, from: int) -> int
    decreases s.len() - from,
{
    if from < 0 || from >= s.len() {
        s.len() as int
    } else if s[from] == c {
        from
    } else {
        first_char_from(s, c, from + 1)
    }
}

/// Whether `pat` stands in `s` at index `i`.
pub open spec fn occurs_at(s: Seq<char>, pat: Seq<char>, i: int) -> bool {
    &&& 0 <= i
    &&& i + pat.len() <= s.len()
    &&& s.subrange(i, i + pat.len()) == pat
}

/// The least index at or after `from` at which `pat` stands in `s`; the length
/// of `s` where there is none.
pub open spec fn first_occurrence_from(s: Seq<char>, pat: Seq<char>, from: int) -> int
    decreases s.len() - from,
{
    if from < 0 || from >= s.len() {
        s.len() as int
    } else if occurs_at(s, pat, from) {
        from
    } else {
        first_occurrence_from(s, pat, from + 1)
    }
}

/// What `first_char_from` finds: an index in `from..=s.len()`, with `c` there
/// if it is an index of `s`, and no `c` between `from` and it.
pub proof fn lemma_first_char_from(s: Seq<char>, c: char, from: int)
    requires
        0 <= from <= s.len(),
    ensures
        from <= first_char_from(s, c, from) <= s.len(),
        first_char_from(s, c, from) < s.len() ==> s[first_char_from(s, c, from)] == c,
        forall|j: int| from <= j < first_char_from(s, c, from) ==> s[j] != c,
    decreases s.len() - from,
{
    if from < s.len() && s[from] != c {
        lemma_first_char_from(s, c, from + 1);
    }
}

/// What `first_occurrence_from` finds, for a non-empty `pat`.
pub proof fn lemma_first_occurrence_from(s: Seq<char>, pat: Seq<char>, from: int)
    requires
        0 <= from <= s.len(),
    ensures
        from <= first_occurrence_from(s, pat, from) <= s.len(),
        first_occurrence_from(s, pat, from) < s.len() ==> occurs_at(
            s,
            pat,
            first_occurrence_from(s, pat, from),
        ),
        forall|j: int| from <= j < first_occurrence_from(s, pat, from) ==> !occurs_at(s, pat, j),
    decreases s.len() - from,
{
    if from < s.len() && !occurs_at(s, pat, from) {
        lemma_first_occurrence_from(s, pat, from + 1);
    }
}

/// Finds `c` in `s` at or after `from`.
pub fn find_char_from(s: &Vec<char>, c: char, from: usize) -> (r: usize)
    ensures
        r == first_char_from(s@, c, from as int),
        r <= s.len(),
        from <= s.len() ==> from <= r,
{
    let mut i: usize = from;
    while i < s.len() && s[i] != c
        invariant
            from <= i,
            first_char_from(s@, c, from as int) == first_char_from(s@, c, i as int),
        decreases s.len() - i,
    {
        i += 1;
    }
    if i < s.len() {
        i
    } else {
        s.len()
    }
}

/// Whether `pat` stands in `s` at index `i`.
pub fn has_at(s: &Vec<char>, pat: &[char], i: usize) -> (r: bool)
    ensures
        r == occurs_at(s@, pat@, i as int),
{
    if pat.len() > s.len() || i > s.len() - pat.len() {
        return false;
    }
    let mut k: usize = 0;
    while k < pat.len()
        invariant
            k <= pat.len(),
            i + pat.len() <= s.len(),
            s@.subrange(i as int, i + k) == pat@.take(k as int),
        decreases pat.len() - k,
    {
        if s[i + k] != pat[k] {
            return false;
        }
        k += 1;
    }
    assert(pat@.take(pat.len() as int) == pat@);
    true
}

/// Finds `pat` in `s` at or after `from`.
pub fn find_from(s: &Vec<char>, pat: &[char], from: usize) -> (r: usize)
    ensures
        r == first_occurrence_from(s@, pat@, from as int),
        r <= s.len(),
        from <= s.len() ==> from <= r,
{
    let mut i: usize = from;
    while i < s.len()
        invariant
            from <= i,
            first_occurrence_from(s@, pat@, from as int) == first_occurrence_from(
                s@,
                pat@,
                i as int,
            ),
        decreases s.len() - i,
    {
        if has_at(s, pat, i) {
            return i;
        }
        i += 1;
    }
    s.len()
}

/// `s` without its leading white space.
pub open spec fn trim_start(s: Seq<char>) -> Seq<char>
    decreases s.len(),
{
    if s.len() > 0 && is_space(s[0]) {
        trim_start(s.drop_first())
    } else {
        s
    }
}

/// `s` without its trailing white space.
pub open spec fn trim_end(s: Seq<char>) -> Seq<char>
    decreases s.len(),
{
    if s.len() > 0 && is_space(s.last()) {
        trim_end(s.drop_last())
    } else {
        s
    }
}

/// `s` without the white space at either end.
pub open spec fn trimmed(s: Seq<char>) -> Seq<char> {
    trim_end(trim_start(s))
}

/// The characters of `s` from index `from` on, without the white space at
/// either end.
pub fn trim_from(s: &Vec<char>, from: usize) -> (r: Vec<char>)
    requires
        from <= s.len(),
    ensures
        r@ == trimmed(s@.skip(from as int)),
{
    let mut a: usize = from;
    while a < s.len() && char_is_space(s[a])
        invariant
            from <= a <= s.len(),
            trim_start(s@.skip(from as int)) == trim_start(s@.skip(a as int)),
        decreases s.len() - a,
    {
        assert(s@.skip(a as int).drop_first() == s@.skip(a + 1));
        a += 1;
    }
    let mut b: usize = s.len();
    while b > a && char_is_space(s[b - 1])
        invariant
            a <= b <= s.len(),
            trim_end(s@.skip(a as int)) == trim_end(s@.subrange(a as int, b as int)),
        decreases b,
    {
        assert(s@.subrange(a as int, b as int).drop_last() == s@.subrange(a as int, b - 1));
        b -= 1;
    }
    let mut r: Vec<char> = Vec::new();
    let mut i: usize = a;
    while i < b
        invariant
            a <= i <= b <= s.len(),
            r@ == s@.subrange(a as int, i as int),
        decreases b - i,
    {
        r.push(s[i]);
        i += 1;
    }
    r
}

/// Appends the characters `from..to` of `s` to `out`.
pub fn push_range(out: &mut Vec<char>, s: &Vec<char>, from: usize, to: usize)
    requires
        from <= to <= s.len(),
    ensures
        final(out)@ == old(out)@ + s@.subrange(from as int, to as int),
{
    let mut i: usize = from;
    while i < to
        invariant
            from <= i <= to <= s.len(),
            out@ == old(out)@ + s@.subrange(from as int, i as int),
        decreases to - i,
    {
        out.push(s[i]);
        i += 1;
    }
}

/// Appends the characters of `mark` to `out`.
pub fn push_all(out: &mut Vec<char>, mark: &[char])
    ensures
        final(out)@ == old(out)@ + mark@,
{
    let mut i: usize = 0;
    while i < mark.len()
        invariant
            i <= mark.len(),
            out@ == old(out)@ + mark@.take(i as int),
        decreases mark.len() - i,
    {
        out.push(mark[i]);
        i += 1;
    }
}

/// An index with `c` at it, or the length, is what `first_char_from` finds
/// if no `c` stands between `from` and it.
pub proof fn lemma_first_char_is(s: Seq<char>, c: char, from: int, k: int)
    requires
        0 <= from <= k <= s.len(),
        k < s.len() ==> s[k] == c,
        forall|j: int| from <= j < k ==> s[j] != c,
    ensures
        first_char_from(s, c, from) == k,
    decreases k - from,
{
    if from < k {
        lemma_first_char_is(s, c, from + 1, k);
    }
}

/// An index at which `pat` stands, or the length, is what
/// `first_occurrence_from` finds if `pat` stands nowhere between `from` and it.
pub proof fn lemma_first_occurrence_is(s: Seq<char>, pat: Seq<char>, from: int, k: int)
    requires
        0 <= from <= k <= s.len(),
        k < s.len() ==> occurs_at(s, pat, k),
        forall|j: int| from <= j < k ==> !occurs_at(s, pat, j),
    ensures
        first_occurrence_from(s, pat, from) == k,
    decreases k - from,
{
    if from < k {
        lemma_first_occurrence_is(s, pat, from + 1, k);
    }
}

/// Searching `b` behind a prefix `a` finds what searching `b` alone finds,
/// moved by the length of `a`.
pub proof fn lemma_first_char_shift(a: Seq<char>, b: Seq<char>, c: char, from: int)
    requires
        0 <= from,
    ensures
        first_char_from(a + b, c, a.len() + from) == a.len() + first_char_from(b, c, from),
    decreases b.len() - from,
{
    if from < b.len() {
        if b[from] != c {
            lemma_first_char_shift(a, b, c, from + 1);
        }
    }
}

/// `pat` stands in `b` behind a prefix `a` where it stands in `b` alone, moved
/// by the length of `a`.
pub proof fn lemma_occurs_shift(a: Seq<char>, b: Seq<char>, pat: Seq<char>, i: int)
    requires
        0 <= i,
    ensures
        occurs_at(a + b, pat, a.len() + i) == occurs_at(b, pat, i),
{
    if i + pat.len() <= b.len() {
        assert((a + b).subrange(a.len() + i, a.len() + i + pat.len()) == b.subrange(
            i,
            i + pat.len(),
        ));
    }
}

/// Searching `b` behind a prefix `a` for `pat` finds what searching `b` alone
/// finds, moved by the length of `a`.
pub proof fn lemma_first_occurrence_shift(a: Seq<char>, b: Seq<char>, pat: Seq<char>, from: int)
    requires
        0 <= from,
    ensures
        first_occurrence_from(a + b, pat, a.len() + from) == a.len() + first_occurrence_from(
            b,
            pat,
            from,
        ),
    decreases b.len() - from,
{
    if from < b.len() {
        lemma_occurs_shift(a, b, pat, from);
        if !occurs_at(b, pat, from) {
            lemma_first_occurrence_shift(a, b, pat, from + 1);
        }
    }
}

/// Whether `s` holds no `c`.
pub open spec fn lacks(s: Seq<char>, c: char) -> bool {
    forall|j: int| 0 <= j < s.len() ==> s[j] != c
}

proof fn lemma_trim_start_lacks(s: Seq<char>, c: char)
    requires
        lacks(s, c),
    ensures
        lacks(trim_start(s), c),
    decreases s.len(),
{
    if s.len() > 0 && is_space(s[0]) {
        lemma_trim_start_lacks(s.drop_first(), c);
    }
}

proof fn lemma_trim_end_lacks(s: Seq<char>, c: char)
    requires
        lacks(s, c),
    ensures
        lacks(trim_end(s), c),
    decreases s.len(),
{
    if s.len() > 0 && is_space(s.last()) {
        lemma_trim_end_lacks(s.drop_last(), c);
    }
}

/// Trimming brings in no character: what `s` lacks, `s` trimmed lacks too.
pub proof fn lemma_trimmed_lacks(s: Seq<char>, c: char)
    requires
        lacks(s, c),
    ensures
        lacks(trimmed(s), c),
{
    lemma_trim_start_lacks(s, c);
    lemma_trim_end_lacks(trim_start(s), c);
}

} // verus!
