//! Text as sequences of characters: searching, splitting and trimming.

use vstd::prelude::*;
use vstd::utf8::*;

verus! {

/// The characters of an optional string.
pub open spec fn text_of(s: Option<String>) -> Option<Seq<char>> {
    match s {
        Some(s) => Some(s@),
        None => None,
    }
}

/// The characters of an optional string slice.
pub open spec fn slice_of(s: Option<&str>) -> Option<Seq<char>> {
    match s {
        Some(s) => Some(s@),
        None => None,
    }
}

/// Whether `c` has the Unicode property `White_Space`.
pub open spec fn is_whitespace(c: char) -> bool {
    let n = c as u32;
    (0x09 <= n && n <= 0x0d) || n == 0x20 || n == 0x85 || n == 0xa0 || n == 0x1680 || (0x2000 <= n
        && n <= 0x200a) || n == 0x2028 || n == 0x2029 || n == 0x202f || n == 0x205f || n == 0x3000
}

/// Tests a character for the property `White_Space`.
pub fn char_is_whitespace(c: char) -> (b: bool)
    ensures
        b == is_whitespace(c),
{
    let n: u32 = c as u32;
    (0x09 <= n && n <= 0x0d) || n == 0x20 || n == 0x85 || n == 0xa0 || n == 0x1680 || (0x2000 <= n
        && n <= 0x200a) || n == 0x2028 || n == 0x2029 || n == 0x202f || n == 0x205f || n == 0x3000
}

/// The position of the first `x` in `s`, or the length of `s` where it holds none.
pub open spec fn index_of<T>(s: Seq<T>, x: T) -> nat
    decreases s.len(),
{
    if s.len() == 0 || s.first() == x {
        0
    } else {
        1 + index_of(s.drop_first(), x)
    }
}

/// What `index_of` finds is the first occurrence.
pub proof fn lemma_index_of<T>(s: Seq<T>, x: T)
    ensures
        index_of(s, x) <= s.len(),
        index_of(s, x) < s.len() ==> s[index_of(s, x) as int] == x,
        forall|j: int| 0 <= j < index_of(s, x) ==> s[j] != x,
    decreases s.len(),
{
    if s.len() == 0 || s.first() == x {
    } else {
        lemma_index_of(s.drop_first(), x);
        assert forall|j: int| 0 <= j < index_of(s, x) implies s[j] != x by {
            if j > 0 {
                assert(s[j] == s.drop_first()[j - 1]);
            }
        }
    }
}

/// A position that holds `x` with no `x` before it is the one `index_of` gives.
pub proof fn lemma_index_of_unique<T>(s: Seq<T>, x: T, i: int)
    requires
        0 <= i <= s.len(),
        i < s.len() ==> s[i] == x,
        forall|j: int| 0 <= j < i ==> s[j] != x,
    ensures
        index_of(s, x) == i,
{
    lemma_index_of(s, x);
}

/// The characters of a string slice, in a vector.
pub fn chars_of(s: &str) -> (v: Vec<char>)
    ensures
        v@ == s@,
{
    let mut v: Vec<char> = Vec::new();
    for c in it: s.chars()
        invariant
            v@ == it.seq().take(it.index() as int),
            it.seq() == s@,
    {
        v.push(c);
    }
    v
}

/// Finds the first `c` in `chars[from..to]`; gives `to` where there is none.
pub fn find(chars: &Vec<char>, from: usize, to: usize, c: char) -> (at: usize)
    requires
        from <= to <= chars.len(),
    ensures
        from <= at <= to,
        at - from == index_of(chars@.subrange(from as int, to as int), c),
{
    let mut i: usize = from;
    while i < to && chars[i] != c
        invariant
            from <= i <= to <= chars.len(),
            forall|j: int| from <= j < i ==> chars[j] != c,
        decreases to - i,
    {
        i += 1;
    }
    proof {
        lemma_index_of_unique(chars@.subrange(from as int, to as int), c, i - from);
    }
    i
}

/// `s` without the whitespace it starts with.
pub open spec fn trim_start(s: Seq<char>) -> Seq<char>
    decreases s.len(),
{
    if s.len() > 0 && is_whitespace(s.first()) {
        trim_start(s.drop_first())
    } else {
        s
    }
}

/// `s` without the whitespace it ends with.
pub open spec fn trim_end(s: Seq<char>) -> Seq<char>
    decreases s.len(),
{
    if s.len() > 0 && is_whitespace(s.last()) {
        trim_end(s.drop_last())
    } else {
        s
    }
}

/// `s` without the whitespace at either end.
pub open spec fn trim(s: Seq<char>) -> Seq<char> {
    trim_end(trim_start(s))
}

/// Whether `s` neither starts nor ends with whitespace.
pub open spec fn is_trimmed(s: Seq<char>) -> bool {
    s.len() > 0 ==> !is_whitespace(s.first()) && !is_whitespace(s.last())
}

/// Cutting `k` whitespace characters from the front, up to one that is none, trims the front.
pub proof fn lemma_trim_start_at(s: Seq<char>, k: int)
    requires
        0 <= k <= s.len(),
        forall|j: int| 0 <= j < k ==> is_whitespace(s[j]),
        k < s.len() ==> !is_whitespace(s[k]),
    ensures
        trim_start(s) == s.skip(k),
    decreases k,
{
    if k == 0 {
        assert(s.skip(0) =~= s);
    } else {
        let t = s.drop_first();
        assert forall|j: int| 0 <= j < k - 1 implies is_whitespace(t[j]) by {
            assert(t[j] == s[j + 1]);
        }
        lemma_trim_start_at(t, k - 1);
        assert(t.skip(k - 1) =~= s.skip(k));
    }
}

/// Cutting whitespace from the back, down to a character that is none, trims the back.
pub proof fn lemma_trim_end_at(s: Seq<char>, k: int)
    requires
        0 <= k <= s.len(),
        forall|j: int| k <= j < s.len() ==> is_whitespace(s[j]),
        k > 0 ==> !is_whitespace(s[k - 1]),
    ensures
        trim_end(s) == s.take(k),
    decreases s.len() - k,
{
    if k == s.len() {
        assert(s.take(k) =~= s);
    } else {
        let t = s.drop_last();
        lemma_trim_end_at(t, k);
        assert(t.take(k) =~= s.take(k));
    }
}

/// The bounds of `chars[from..to]` without the whitespace at either end.
pub fn trim_range(chars: &Vec<char>, from: usize, to: usize) -> (r: (usize, usize))
    requires
        from <= to <= chars.len(),
    ensures
        from <= r.0 <= r.1 <= to,
        chars@.subrange(r.0 as int, r.1 as int) == trim(chars@.subrange(from as int, to as int)),
{
    let mut a: usize = from;
    while a < to && char_is_whitespace(chars[a])
        invariant
            from <= a <= to <= chars.len(),
            forall|j: int| from <= j < a ==> is_whitespace(chars[j]),
        decreases to - a,
    {
        a += 1;
    }
    let mut b: usize = to;
    while a < b && char_is_whitespace(chars[b - 1])
        invariant
            a <= b <= to <= chars.len(),
            forall|j: int| b <= j < to ==> is_whitespace(chars[j]),
        decreases b,
    {
        b -= 1;
    }
    proof {
        let s = chars@.subrange(from as int, to as int);
        lemma_trim_start_at(s, a - from);
        let t = s.skip(a - from);
        assert(t =~= chars@.subrange(a as int, to as int));
        lemma_trim_end_at(t, b - a);
        assert(t.take(b - a) =~= chars@.subrange(a as int, b as int));
    }
    (a, b)
}

/// The pieces of `s` between the occurrences of `c`: one more piece than occurrences.
pub open spec fn split(s: Seq<char>, c: char) -> Seq<Seq<char>>
    decreases s.len(),
{
    let i = index_of(s, c);
    if i >= s.len() {
        seq![s]
    } else {
        seq![s.take(i as int)] + split(s.skip(i as int + 1), c)
    }
}

/// The bounds of the pieces of `chars` between the occurrences of `c`.
pub fn split_ranges(chars: &Vec<char>, c: char) -> (ranges: Vec<(usize, usize)>)
    ensures
        ranges.len() == split(chars@, c).len(),
        forall|i: int|
            0 <= i < ranges.len() ==> {
                &&& (#[trigger] ranges[i]).0 <= ranges[i].1 <= chars.len()
                &&& chars@.subrange(ranges[i].0 as int, ranges[i].1 as int) == split(chars@, c)[i]
            },
{
    let mut ranges: Vec<(usize, usize)> = Vec::new();
    let mut start: usize = 0;
    let ghost mut done: Seq<Seq<char>> = Seq::empty();
    assert(chars@.skip(0) =~= chars@);
    loop
        invariant_except_break
            split(chars@, c) == done + split(chars@.skip(start as int), c),
        invariant
            start <= chars.len(),
            ranges.len() == done.len(),
            forall|i: int|
                0 <= i < ranges.len() ==> {
                    &&& (#[trigger] ranges[i]).0 <= ranges[i].1 <= chars.len()
                    &&& chars@.subrange(ranges[i].0 as int, ranges[i].1 as int) == done[i]
                },
        ensures
            ranges.len() == done.len(),
            split(chars@, c) == done,
            forall|i: int|
                0 <= i < ranges.len() ==> {
                    &&& (#[trigger] ranges[i]).0 <= ranges[i].1 <= chars.len()
                    &&& chars@.subrange(ranges[i].0 as int, ranges[i].1 as int) == done[i]
                },
        decreases chars.len() - start,
    {
        let end = find(chars, start, chars.len(), c);
        let ghost rest = chars@.skip(start as int);
        let ghost piece = chars@.subrange(start as int, end as int);
        proof {
            assert(chars@.subrange(start as int, chars.len() as int) =~= rest);
            assert(rest.take(end - start) =~= piece);
        }
        ranges.push((start, end));
        if end == chars.len() {
            proof {
                assert(piece =~= rest);
                assert(done + seq![rest] =~= done.push(piece));
                done = done.push(piece);
            }
            break ;
        }
        proof {
            assert(rest.skip(end - start + 1) =~= chars@.skip(end + 1));
            assert(done + (seq![piece] + split(chars@.skip(end + 1), c)) =~= done.push(piece)
                + split(chars@.skip(end + 1), c));
            done = done.push(piece);
        }
        start = end + 1;
    }
    ranges
}

/// Whether no character of `s` is `c`.
pub open spec fn free_of(s: Seq<char>, c: char) -> bool {
    forall|i: int| 0 <= i < s.len() ==> s[i] != c
}

/// Trimming the front cuts a prefix, and leaves no whitespace in front.
pub proof fn lemma_trim_start(s: Seq<char>)
    ensures
        trim_start(s).len() <= s.len(),
        trim_start(s) == s.skip(s.len() - trim_start(s).len()),
        trim_start(s).len() > 0 ==> !is_whitespace(trim_start(s).first()),
    decreases s.len(),
{
    if s.len() > 0 && is_whitespace(s.first()) {
        let t = s.drop_first();
        lemma_trim_start(t);
        assert(t.skip(t.len() - trim_start(t).len()) =~= s.skip(s.len() - trim_start(t).len()));
    } else {
        assert(s.skip(0) =~= s);
    }
}

/// Trimming the back cuts a suffix, and leaves no whitespace at the back.
pub proof fn lemma_trim_end(s: Seq<char>)
    ensures
        trim_end(s).len() <= s.len(),
        trim_end(s) == s.take(trim_end(s).len() as int),
        trim_end(s).len() > 0 ==> !is_whitespace(trim_end(s).last()),
    decreases s.len(),
{
    if s.len() > 0 && is_whitespace(s.last()) {
        let t = s.drop_last();
        lemma_trim_end(t);
        assert(t.take(trim_end(t).len() as int) =~= s.take(trim_end(t).len() as int));
    } else {
        assert(s.take(s.len() as int) =~= s);
    }
}

/// A trimmed text has no whitespace at either end, and holds no character
/// that the text did not hold.
pub proof fn lemma_trim(s: Seq<char>, c: char)
    ensures
        is_trimmed(trim(s)),
        free_of(s, c) ==> free_of(trim(s), c),
{
    lemma_trim_start(s);
    let t = trim_start(s);
    lemma_trim_end(t);
    let u = trim_end(t);
    if u.len() > 0 {
        assert(u.first() == t.first());
    }
    if free_of(s, c) {
        assert forall|i: int| 0 <= i < u.len() implies u[i] != c by {
            assert(u[i] == t[i]);
            assert(t[i] == s[i + (s.len() - t.len())]);
        }
    }
}

/// A text with no whitespace at either end is its own trimmed form.
pub proof fn lemma_trim_of_trimmed(s: Seq<char>)
    requires
        is_trimmed(s),
    ensures
        trim(s) == s,
{
    lemma_trim_start_at(s, 0);
    assert(s.skip(0) =~= s);
    lemma_trim_end_at(s, s.len() as int);
    assert(s.take(s.len() as int) =~= s);
}

/// No piece of a split holds the separator.
pub proof fn lemma_split_pieces(s: Seq<char>, c: char)
    ensures
        split(s, c).len() >= 1,
        forall|i: int| 0 <= i < split(s, c).len() ==> free_of(#[trigger] split(s, c)[i], c),
    decreases s.len(),
{
    lemma_index_of(s, c);
    let i = index_of(s, c);
    if i >= s.len() {
    } else {
        let rest = s.skip(i as int + 1);
        lemma_split_pieces(rest, c);
        assert forall|k: int| 0 <= k < split(s, c).len() implies free_of(
            #[trigger] split(s, c)[k],
            c,
        ) by {
            if k > 0 {
                assert(split(s, c)[k] == split(rest, c)[k - 1]);
            }
        }
    }
}

/// A text that starts with a piece free of the separator, followed by the
/// separator, splits into that piece and the pieces of what follows.
pub proof fn lemma_split_at(piece: Seq<char>, c: char, rest: Seq<char>)
    requires
        free_of(piece, c),
    ensures
        split(piece + seq![c] + rest, c) == seq![piece] + split(rest, c),
{
    let s = piece + seq![c] + rest;
    lemma_index_of_unique(s, c, piece.len() as int);
    assert(s.take(piece.len() as int) =~= piece);
    assert(s.skip(piece.len() as int + 1) =~= rest);
}

/// Whether `needle` occurs in `hay` as a run of neighbouring characters.
pub open spec fn is_substring(needle: Seq<char>, hay: Seq<char>) -> bool {
    exists|i: int| occurs_at(needle, hay, i)
}

/// Whether `needle` stands in `hay` at position `i`.
pub open spec fn occurs_at(needle: Seq<char>, hay: Seq<char>, i: int) -> bool {
    0 <= i && i + needle.len() <= hay.len() && hay.subrange(i, i + needle.len()) == needle
}

/// Whether `chars[from..to]` spells `word`.
pub fn range_is(chars: &Vec<char>, from: usize, to: usize, word: &Vec<char>) -> (b: bool)
    requires
        from <= to <= chars.len(),
    ensures
        b == (chars@.subrange(from as int, to as int) == word@),
{
    if to - from != word.len() {
        return false;
    }
    let mut k: usize = 0;
    while k < word.len()
        invariant
            from <= to <= chars.len(),
            to - from == word.len(),
            k <= word.len(),
            forall|j: int| 0 <= j < k ==> chars[from + j] == word[j],
        decreases word.len() - k,
    {
        if chars[from + k] != word[k] {
            assert(chars@.subrange(from as int, to as int)[k as int] != word@[k as int]);
            return false;
        }
        k += 1;
    }
    assert(chars@.subrange(from as int, to as int) =~= word@);
    true
}

/// Whether `needle` occurs in `hay`.
pub fn contains(hay: &Vec<char>, needle: &Vec<char>) -> (b: bool)
    ensures
        b == is_substring(needle@, hay@),
{
    if needle.len() > hay.len() {
        return false;
    }
    let last: usize = hay.len() - needle.len();
    let mut i: usize = 0;
    loop
        invariant
            last == hay.len() - needle.len(),
            i <= last,
            forall|j: int| 0 <= j < i ==> !occurs_at(needle@, hay@, j),
        decreases last - i,
    {
        if range_is(hay, i, i + needle.len(), needle) {
            assert(occurs_at(needle@, hay@, i as int));
            return true;
        }
        if i == last {
            return false;
        }
        i += 1;
    }
}

/// The lowercase form of a text, as Unicode defines it for whole strings.
pub uninterp spec fn lowercase(s: Seq<char>) -> Seq<char>;

/// `str::to_lowercase` of std: the result is the lowercase form of the
/// argument, which the crate names `lowercase` and does not spell out.
#[verifier::external_body]
pub(crate) fn to_lowercase(s: &str) -> (lowered: String)
    ensures
        lowered@ == lowercase(s@),
{
    s.to_lowercase()
}

/// `std::str::from_utf8`: the bytes are handed back as text exactly when they
/// are well-formed UTF-8, and the text is then what they encode.
#[verifier::external_body]
pub(crate) fn decode(bytes: &[u8]) -> (text: Option<&str>)
    ensures
        text is Some <==> valid_utf8(bytes@),
        text is Some ==> text.unwrap()@ == decode_utf8(bytes@),
{
    std::str::from_utf8(bytes).ok()
}

} // verus!
