//! Text primitives over sequences of characters: whitespace, words, trimming,
//! literal comparison and decimal numbers.

use vstd::prelude::*;

verus! {

/// `String::push` of the standard library: appends one character to the end
/// of the string and leaves the characters before it as they were.
pub assume_specification[ String::push ](s: &mut String, c: char)
    ensures
        final(s)@ == old(s)@.push(c),
;

/// Characters with the Unicode `White_Space` property.
pub open spec fn is_space(c: char) -> bool {
    let n = c as u32;
    ||| 0x09 <= n <= 0x0d
    ||| n == 0x20
    ||| n == 0x85
    ||| n == 0xa0
    ||| n == 0x1680
    ||| 0x2000 <= n <= 0x200a
    ||| n == 0x2028
    ||| n == 0x2029
    ||| n == 0x202f
    ||| n == 0x205f
    ||| n == 0x3000
}

pub fn is_space_char(c: char) -> (r: bool)
    ensures
        r == is_space(c),
{
    let n: u32 = c as u32;
    (0x09 <= n && n <= 0x0d) || n == 0x20 || n == 0x85 || n == 0xa0 || n == 0x1680 || (0x2000 <= n
        && n <= 0x200a) || n == 0x2028 || n == 0x2029 || n == 0x202f || n == 0x205f || n == 0x3000
}

/// The views of a sequence of strings.
pub open spec fn texts(v: Seq<String>) -> Seq<Seq<char>> {
    v.map_values(|s: String| s@)
}

/// The view of an optional string.
pub open spec fn optional_view(s: Option<String>) -> Option<Seq<char>> {
    match s {
        Some(t) => Some(t@),
        None => None,
    }
}

/// The views of a sequence of character vectors.
pub open spec fn rows(v: Seq<Vec<char>>) -> Seq<Seq<char>> {
    v.map_values(|r: Vec<char>| r@)
}

/// The characters of a string slice, in order.
pub fn chars_of(s: &str) -> (v: Vec<char>)
    ensures
        v@ == s@,
{
    let mut v: Vec<char> = Vec::new();
    for c in it: s.chars()
        invariant
            v@ == it.seq().take(it.index() as int),
            it.seq() == s@,
    {
        v.push(c);
    }
    v
}

/// The string made of `v[from..to]`.
pub fn string_of(v: &Vec<char>, from: usize, to: usize) -> (s: String)
    requires
        from <= to <= v.len(),
    ensures
        s@ == v@.subrange(from as int, to as int),
{
    let mut s = String::new();
    let mut i: usize = from;
    while i < to
        invariant
            from <= i <= to <= v.len(),
            s@ == v@.subrange(from as int, i as int),
        decreases to - i,
    {
        s.push(v[i]);
        i += 1;
    }
    s
}

/// The string made of `v`.
pub fn string_from(v: &Vec<char>) -> (s: String)
    ensures
        s@ == v@,
{
    assert(v@.subrange(0, v@.len() as int) == v@);
    string_of(v, 0, v.len())
}

/// A copy of `v[from..to]`.
pub fn slice_of(v: &Vec<char>, from: usize, to: usize) -> (out: Vec<char>)
    requires
        from <= to <= v.len(),
    ensures
        out@ == v@.subrange(from as int, to as int),
{
    let mut out: Vec<char> = Vec::new();
    let mut i: usize = from;
    while i < to
        invariant
            from <= i <= to <= v.len(),
            out@ == v@.subrange(from as int, i as int),
        decreases to - i,
    {
        out.push(v[i]);
        i += 1;
    }
    out
}

/// Appends `t` to `s`.
pub fn push_text(s: &mut String, t: &str)
    ensures
        final(s)@ == old(s)@ + t@,
{
    let ghost before = s@;
    for c in it: t.chars()
        invariant
            s@ == before + it.seq().take(it.index() as int),
            it.seq() == t@,
    {
        proof {
            let i = it.index() as int;
            assert(it.seq().take(i + 1) == it.seq().take(i).push(c));
            assert(before + it.seq().take(i).push(c) == (before + it.seq().take(i)).push(c));
        }
        s.push(c);
    }
    assert(t@.take(t@.len() as int) == t@);
}

/// The items, with `sep` between each two.
pub open spec fn joined(items: Seq<Seq<char>>, sep: Seq<char>) -> Seq<char>
    decreases items.len(),
{
    if items.len() == 0 {
        Seq::empty()
    } else if items.len() == 1 {
        items[0]
    } else {
        joined(items.drop_last(), sep) + sep + items.last()
    }
}

/// Appends the items to `s`, with `sep` between each two.
pub fn push_joined(s: &mut String, items: &Vec<String>, sep: &str)
    ensures
        final(s)@ == old(s)@ + joined(texts(items@), sep@),
{
    let ghost before = s@;
    let ghost all = texts(items@);
    if items.len() == 0 {
        assert(before + Seq::<char>::empty() == before);
        return ;
    }
    push_text(s, items[0].as_str());
    assert(all.take(1) == seq![items@[0]@]);
    let mut i: usize = 1;
    while i < items.len()
        invariant
            1 <= i <= items.len(),
            all == texts(items@),
            s@ == before + joined(all.take(i as int), sep@),
        decreases items.len() - i,
    {
        push_text(s, sep);
        push_text(s, items[i].as_str());
        proof {
            let now = all.take(i + 1);
            assert(now.drop_last() == all.take(i as int));
            assert(now.last() == items@[i as int]@);
            assert(before + joined(all.take(i as int), sep@) + sep@ + items@[i as int]@ == before
                + (joined(all.take(i as int), sep@) + sep@ + items@[i as int]@));
        }
        i += 1;
    }
    assert(all.take(items.len() as int) == all);
}

/// An owned copy of a string.
pub fn copy_string(s: &String) -> (out: String)
    ensures
        out@ == s@,
{
    s.clone()
}

/// An owned copy of a list of strings.
pub fn copy_strings(v: &Vec<String>) -> (out: Vec<String>)
    ensures
        texts(out@) == texts(v@),
{
    let mut out: Vec<String> = Vec::new();
    let mut i: usize = 0;
    while i < v.len()
        invariant
            i <= v.len(),
            texts(out@) == texts(v@).take(i as int),
        decreases v.len() - i,
    {
        let item = v[i].clone();
        proof {
            assert(texts(out@.push(item)) == texts(out@).push(item@));
            assert(texts(v@).take(i + 1) == texts(v@).take(i as int).push(v@[i as int]@));
        }
        out.push(item);
        i += 1;
    }
    assert(texts(v@).take(v.len() as int) == texts(v@));
    out
}

/// Whether two character sequences hold the same characters.
pub fn same_chars(a: &Vec<char>, b: &Vec<char>) -> (r: bool)
    ensures
        r == (a@ == b@),
{
    if a.len() != b.len() {
        return false;
    }
    let mut i: usize = 0;
    while i < a.len()
        invariant
            a.len() == b.len(),
            i <= a.len(),
            a@.take(i as int) == b@.take(i as int),
        decreases a.len() - i,
    {
        if a[i] != b[i] {
            return false;
        }
        assert(a@.take(i + 1) == a@.take(i as int).push(a@[i as int]));
        assert(b@.take(i + 1) == b@.take(i as int).push(b@[i as int]));
        i += 1;
    }
    assert(a@ == a@.take(a.len() as int));
    assert(b@ == b@.take(b.len() as int));
    true
}

/// Whether `word` spells exactly the literal `lit`.
pub fn is_literal(word: &Vec<char>, lit: &str) -> (r: bool)
    ensures
        r == (word@ == lit@),
{
    let l = chars_of(lit);
    same_chars(word, &l)
}

/// Whether two texts hold the same characters.
pub fn same_text(a: &str, b: &str) -> (r: bool)
    ensures
        r == (a@ == b@),
{
    let x = chars_of(a);
    let y = chars_of(b);
    same_chars(&x, &y)
}

/// Whether `s` begins with `prefix`.
pub fn starts_with(s: &Vec<char>, prefix: &str) -> (r: bool)
    ensures
        r == prefix@.is_prefix_of(s@),
{
    let p = chars_of(prefix);
    if p.len() > s.len() {
        return false;
    }
    let head = slice_of(s, 0, p.len());
    same_chars(&head, &p)
}

/// The first index at or after `from` that holds no whitespace, or the
/// length of `s` where there is none.
pub open spec fn first_non_space(s: Seq<char>, from: int) -> int
    decreases s.len() - from,
{
    if 0 <= from < s.len() && is_space(s[from]) {
        first_non_space(s, from + 1)
    } else {
        from
    }
}

/// The first index at or after `from` that holds whitespace, or the length
/// of `s` where there is none.
pub open spec fn first_space(s: Seq<char>, from: int) -> int
    decreases s.len() - from,
{
    if 0 <= from < s.len() && !is_space(s[from]) {
        first_space(s, from + 1)
    } else {
        from
    }
}

/// The end of `s[..to]` once trailing whitespace is cut off.
pub open spec fn last_non_space_end(s: Seq<char>, to: int) -> int
    decreases to,
{
    if 0 < to <= s.len() && is_space(s[to - 1]) {
        last_non_space_end(s, to - 1)
    } else {
        to
    }
}

/// The maximal runs of non-whitespace characters of `s` that begin at or
/// after `from`, in order.
pub open spec fn words_from(s: Seq<char>, from: int) -> Seq<Seq<char>>
    decreases s.len() - from,
{
    let start = first_non_space(s, from);
    let end = first_space(s, start);
    if 0 <= from <= start < end <= s.len() {
        seq![s.subrange(start, end)] + words_from(s, end)
    } else {
        Seq::empty()
    }
}

/// The whitespace-separated words of `s`.
pub open spec fn words(s: Seq<char>) -> Seq<Seq<char>> {
    words_from(s, 0)
}

/// `s` without leading and trailing whitespace.
pub open spec fn trimmed(s: Seq<char>) -> Seq<char> {
    let start = first_non_space(s, 0);
    let end = last_non_space_end(s, s.len() as int);
    if start < end {
        s.subrange(start, end)
    } else {
        Seq::empty()
    }
}

pub proof fn lemma_first_non_space_bounds(s: Seq<char>, from: int)
    requires
        0 <= from <= s.len(),
    ensures
        from <= first_non_space(s, from) <= s.len(),
        first_non_space(s, from) < s.len() ==> !is_space(s[first_non_space(s, from)]),
        forall|k: int| from <= k < first_non_space(s, from) ==> is_space(s[k]),
    decreases s.len() - from,
{
    if from < s.len() && is_space(s[from]) {
        lemma_first_non_space_bounds(s, from + 1);
    }
}

pub proof fn lemma_first_space_bounds(s: Seq<char>, from: int)
    requires
        0 <= from <= s.len(),
    ensures
        from <= first_space(s, from) <= s.len(),
        first_space(s, from) < s.len() ==> is_space(s[first_space(s, from)]),
        forall|k: int| from <= k < first_space(s, from) ==> !is_space(s[k]),
    decreases s.len() - from,
{
    if from < s.len() && !is_space(s[from]) {
        lemma_first_space_bounds(s, from + 1);
    }
}

pub proof fn lemma_last_non_space_end_bounds(s: Seq<char>, to: int)
    requires
        0 <= to <= s.len(),
    ensures
        0 <= last_non_space_end(s, to) <= to,
        last_non_space_end(s, to) > 0 ==> !is_space(s[last_non_space_end(s, to) - 1]),
        forall|k: int| last_non_space_end(s, to) <= k < to ==> is_space(s[k]),
    decreases to,
{
    if 0 < to && is_space(s[to - 1]) {
        lemma_last_non_space_end_bounds(s, to - 1);
    }
}

/// Every word has a character, and no word holds whitespace.
pub proof fn lemma_words_hold_no_space(s: Seq<char>, from: int)
    requires
        0 <= from <= s.len(),
    ensures
        forall|i: int|
            0 <= i < words_from(s, from).len() ==> (#[trigger] words_from(s, from)[i]).len() > 0,
        forall|i: int, j: int|
            0 <= i < words_from(s, from).len() && 0 <= j < words_from(s, from)[i].len()
                ==> !is_space(#[trigger] words_from(s, from)[i][j]),
    decreases s.len() - from,
{
    let start = first_non_space(s, from);
    let end = first_space(s, start);
    lemma_first_non_space_bounds(s, from);
    if start < s.len() {
        lemma_first_space_bounds(s, start);
        if start < end {
            lemma_words_hold_no_space(s, end);
            let word = s.subrange(start, end);
            let rest = words_from(s, end);
            let all = words_from(s, from);
            assert(all == seq![word] + rest);
            assert forall|i: int, j: int|
                0 <= i < all.len() && 0 <= j < all[i].len() implies !is_space(
                #[trigger] all[i][j],
            ) by {
                if i == 0 {
                    assert(all[0][j] == s[start + j]);
                } else {
                    assert(all[i] == rest[i - 1]);
                }
            }
            assert forall|i: int| 0 <= i < all.len() implies (#[trigger] all[i]).len() > 0 by {
                if i > 0 {
                    assert(all[i] == rest[i - 1]);
                }
            }
        }
    }
}

/// A trimmed text neither begins nor ends with whitespace, and trimming
/// it again changes nothing.
pub proof fn lemma_trimmed_has_clean_ends(s: Seq<char>)
    ensures
        trimmed(s).len() > 0 ==> !is_space(trimmed(s).first()) && !is_space(trimmed(s).last()),
        trimmed(s).len() <= s.len(),
        trimmed(trimmed(s)) == trimmed(s),
{
    let start = first_non_space(s, 0);
    let end = last_non_space_end(s, s.len() as int);
    lemma_first_non_space_bounds(s, 0);
    lemma_last_non_space_end_bounds(s, s.len() as int);
    let t = trimmed(s);
    if start < end {
        assert(t.first() == s[start]);
        assert(t.last() == s[end - 1]);
        assert(first_non_space(t, 0) == 0);
        assert(last_non_space_end(t, t.len() as int) == t.len());
        assert(t.subrange(0, t.len() as int) == t);
    } else {
        assert(first_non_space(t, 0) == 0);
        assert(last_non_space_end(t, 0) == 0);
    }
}

/// The text of `s` without leading and trailing whitespace.
pub fn trimmed_text(s: &str) -> (out: String)
    ensures
        out@ == trimmed(s@),
{
    let chars = chars_of(s);
    let t = trim(&chars);
    string_from(&t)
}

/// The index that `first_non_space` names.
pub fn skip_spaces(s: &Vec<char>, from: usize) -> (i: usize)
    requires
        from <= s.len(),
    ensures
        i == first_non_space(s@, from as int),
        from <= i <= s.len(),
{
    let mut i: usize = from;
    while i < s.len() && is_space_char(s[i])
        invariant
            from <= i <= s.len(),
            first_non_space(s@, i as int) == first_non_space(s@, from as int),
        decreases s.len() - i,
    {
        i += 1;
    }
    i
}

/// The index that `first_space` names.
pub fn skip_word(s: &Vec<char>, from: usize) -> (i: usize)
    requires
        from <= s.len(),
    ensures
        i == first_space(s@, from as int),
        from <= i <= s.len(),
{
    let mut i: usize = from;
    while i < s.len() && !is_space_char(s[i])
        invariant
            from <= i <= s.len(),
            first_space(s@, i as int) == first_space(s@, from as int),
        decreases s.len() - i,
    {
        i += 1;
    }
    i
}

/// Splits `s` into its whitespace-separated words.
pub fn split_words(s: &Vec<char>) -> (out: Vec<Vec<char>>)
    ensures
        rows(out@) == words(s@),
{
    let mut out: Vec<Vec<char>> = Vec::new();
    let mut i: usize = 0;
    loop
        invariant
            i <= s.len(),
            rows(out@) + words_from(s@, i as int) == words(s@),
        ensures
            rows(out@) == words(s@),
        decreases s.len() - i,
    {
        let start = skip_spaces(s, i);
        if start >= s.len() {
            break ;
        }
        let end = skip_word(s, start);
        proof {
            lemma_first_space_bounds(s@, start as int);
            lemma_first_non_space_bounds(s@, i as int);
        }
        let word = slice_of(s, start, end);
        proof {
            let before = rows(out@);
            assert(rows(out@.push(word)) == before.push(word@));
            assert(before.push(word@) + words_from(s@, end as int) == before + (seq![word@]
                + words_from(s@, end as int)));
        }
        out.push(word);
        i = end;
    }
    out
}

/// `s` without leading and trailing whitespace.
pub fn trim(s: &Vec<char>) -> (out: Vec<char>)
    ensures
        out@ == trimmed(s@),
{
    let start = skip_spaces(s, 0);
    let mut end: usize = s.len();
    while end > 0 && is_space_char(s[end - 1])
        invariant
            end <= s.len(),
            last_non_space_end(s@, end as int) == last_non_space_end(s@, s.len() as int),
        decreases end,
    {
        end -= 1;
    }
    if start < end {
        slice_of(s, start, end)
    } else {
        Vec::new()
    }
}

} // verus!
