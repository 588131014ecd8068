use vstd::prelude::*;

verus! {

/// True for the code points that carry the Unicode `White_Space` property,
/// which is what trimming removes.
pub open spec fn is_space(c: char) -> bool {
    let n = c as u32;
    ||| 0x09 <= n <= 0x0d
    ||| n == 0x20
    ||| n == 0x85
    ||| n == 0xa0
    ||| n == 0x1680
    ||| 0x2000 <= n <= 0x200a
    ||| n == 0x2028
    ||| n == 0x2029
    ||| n == 0x202f
    ||| n == 0x205f
    ||| n == 0x3000
}

/// `s` without its leading whitespace.
pub open spec fn trim_start(s: Seq<char>) -> Seq<char>
    decreases s.len(),
{
    if s.len() > 0 && is_space(s.first()) {
        trim_start(s.drop_first())
    } else {
        s
    }
}

/// `s` without its trailing whitespace.
pub open spec fn trim_end(s: Seq<char>) -> Seq<char>
    decreases s.len(),
{
    if s.len() > 0 && is_space(s.last()) {
        trim_end(s.drop_last())
    } else {
        s
    }
}

/// `s` without the whitespace that surrounds it.
pub open spec fn trim(s: Seq<char>) -> Seq<char> {
    trim_end(trim_start(s))
}

/// Length of the first line of `s`: the number of characters before the
/// first newline, or all of them when there is none.
pub open spec fn line_end(s: Seq<char>) -> nat
    decreases s.len(),
{
    if s.len() == 0 || s.first() == '\n' {
        0
    } else {
        1 + line_end(s.drop_first())
    }
}

/// The pieces of `s` between its newlines, in order. A text with `n`
/// newlines has `n + 1` pieces; pieces may be empty.
pub open spec fn split_lines(s: Seq<char>) -> Seq<Seq<char>>
    decreases s.len(),
{
    let k = line_end(s) as int;
    if k >= s.len() {
        seq![s]
    } else {
        seq![s.take(k)] + split_lines(s.skip(k + 1))
    }
}

/// The first line ends at or before the end of the text, holds no newline,
/// and is followed by one unless the text ends there.
pub proof fn lemma_line_end(s: Seq<char>)
    ensures
        line_end(s) <= s.len(),
        !s.take(line_end(s) as int).contains('\n'),
        line_end(s) < s.len() ==> s[line_end(s) as int] == '\n',
    decreases s.len(),
{
    if s.len() == 0 || s.first() == '\n' {
        assert(s.take(0).len() == 0);
    } else {
        let t = s.drop_first();
        lemma_line_end(t);
        let k = line_end(s) as int;
        assert(k == 1 + line_end(t));
        assert forall|i: int| 0 <= i < k implies s.take(k)[i] != '\n' by {
            if i > 0 {
                assert(t.take(k - 1)[i - 1] == s[i]);
                assert(t.take(k - 1).contains(t.take(k - 1)[i - 1]));
            }
        }
    }
}

/// A line that holds no newline, followed by a newline and more text, is the
/// first piece of the whole; the pieces of the rest follow it.
pub proof fn lemma_split_first_line(line: Seq<char>, rest: Seq<char>)
    requires
        !line.contains('\n'),
    ensures
        split_lines(line + seq!['\n'] + rest) == seq![line] + split_lines(rest),
{
    let s = line + seq!['\n'] + rest;
    lemma_line_end_is(s, line.len() as int);
    assert(s.take(line.len() as int) =~= line);
    assert(s.skip(line.len() as int + 1) =~= rest);
}

/// A text that holds no newline is its own single piece.
pub proof fn lemma_split_single_line(line: Seq<char>)
    requires
        !line.contains('\n'),
    ensures
        split_lines(line) == seq![line],
{
    lemma_line_end(line);
    if line_end(line) < line.len() {
        assert(line.contains(line[line_end(line) as int]));
    }
}

/// A newline parts a text: the pieces of the whole are the pieces of what
/// stands before the newline, followed by the pieces of what stands after.
pub proof fn lemma_split_at_newline(before: Seq<char>, after: Seq<char>)
    ensures
        split_lines(before + seq!['\n'] + after) == split_lines(before) + split_lines(after),
    decreases before.len(),
{
    lemma_line_end(before);
    let k = line_end(before) as int;
    if k >= before.len() {
        assert(before.take(k) =~= before);
        lemma_split_first_line(before, after);
    } else {
        let head = before.take(k);
        let tail = before.skip(k + 1);
        assert(before =~= head + seq!['\n'] + tail);
        lemma_split_first_line(head, tail + seq!['\n'] + after);
        lemma_split_at_newline(tail, after);
        assert(before + seq!['\n'] + after =~= head + seq!['\n'] + (tail + seq!['\n'] + after));
        assert(seq![head] + (split_lines(tail) + split_lines(after)) =~= (seq![head]
            + split_lines(tail)) + split_lines(after));
    }
}

/// The first line ends at `k` when a newline stands at `k` and none before.
proof fn lemma_line_end_is(s: Seq<char>, k: int)
    requires
        0 <= k < s.len(),
        s[k] == '\n',
        forall|i: int| 0 <= i < k ==> s[i] != '\n',
    ensures
        line_end(s) == k,
    decreases k,
{
    if k > 0 {
        let t = s.drop_first();
        assert forall|i: int| 0 <= i < k - 1 implies t[i] != '\n' by {
            assert(t[i] == s[i + 1]);
        }
        lemma_line_end_is(t, k - 1);
    }
}

/// The characters of `text`, one element each.
pub fn chars_of(text: &str) -> (chars: Vec<char>)
    ensures
        chars@ == text@,
{
    broadcast use vstd::string::group_string_axioms;

    let mut chars: Vec<char> = Vec::new();
    for c in it: text.chars()
        invariant
            it.seq() == text@,
            chars@ == it.seq().take(it.index()),
    {
        chars.push(c);
    }
    chars
}

/// Tells whether `c` is whitespace.
pub fn whitespace(c: char) -> (r: bool)
    ensures
        r == is_space(c),
{
    let n: u32 = c as u32;
    (0x09 <= n && n <= 0x0d) || n == 0x20 || n == 0x85 || n == 0xa0 || n == 0x1680 || (0x2000 <= n
        && n <= 0x200a) || n == 0x2028 || n == 0x2029 || n == 0x202f || n == 0x205f || n == 0x3000
}

/// Narrows the range `start..end` of `chars` to what trimming leaves of it.
pub fn trim_range(chars: &Vec<char>, start: usize, end: usize) -> (r: (usize, usize))
    requires
        start <= end <= chars.len(),
    ensures
        start <= r.0 <= r.1 <= end,
        chars@.subrange(r.0 as int, r.1 as int) == trim(chars@.subrange(start as int, end as int)),
{
    let mut a = start;
    while a < end && whitespace(chars[a])
        invariant
            start <= a <= end <= chars.len(),
            trim_start(chars@.subrange(start as int, end as int)) == trim_start(
                chars@.subrange(a as int, end as int),
            ),
        decreases end - a,
    {
        assert(chars@.subrange(a as int, end as int).drop_first() =~= chars@.subrange(
            a + 1,
            end as int,
        ));
        a += 1;
    }
    let mut b = end;
    while b > a && whitespace(chars[b - 1])
        invariant
            a <= b <= end <= chars.len(),
            trim_end(chars@.subrange(a as int, end as int)) == trim_end(
                chars@.subrange(a as int, b as int),
            ),
        decreases b - a,
    {
        assert(chars@.subrange(a as int, b as int).drop_last() =~= chars@.subrange(
            a as int,
            b - 1,
        ));
        b -= 1;
    }
    (a, b)
}

/// Finds where the line that starts at `start` ends: the index of the next
/// newline, or the length of `chars` when none follows.
pub fn find_line_end(chars: &Vec<char>, start: usize) -> (end: usize)
    requires
        start <= chars.len(),
    ensures
        start <= end <= chars.len(),
        end - start == line_end(chars@.skip(start as int)),
{
    let mut i = start;
    while i < chars.len() && chars[i] != '\n'
        invariant
            start <= i <= chars.len(),
            line_end(chars@.skip(start as int)) == (i - start) + line_end(chars@.skip(i as int)),
        decreases chars.len() - i,
    {
        assert(chars@.skip(i as int).drop_first() =~= chars@.skip(i + 1));
        i += 1;
    }
    i
}

/// Tells whether the range `start..end` of `chars` begins with `pattern`.
pub fn range_starts_with(chars: &Vec<char>, start: usize, end: usize, pattern: &Vec<char>) -> (r:
    bool)
    requires
        start <= end <= chars.len(),
    ensures
        r == pattern@.is_prefix_of(chars@.subrange(start as int, end as int)),
{
    let ghost range = chars@.subrange(start as int, end as int);
    if pattern.len() > end - start {
        return false;
    }
    let mut i: usize = 0;
    while i < pattern.len()
        invariant
            i <= pattern.len() <= end - start,
            start <= end <= chars.len(),
            range == chars@.subrange(start as int, end as int),
            forall|j: int| 0 <= j < i ==> pattern@[j] == range[j],
        decreases pattern.len() - i,
    {
        if chars[start + i] != pattern[i] {
            assert(range.subrange(0, pattern@.len() as int)[i as int] != pattern@[i as int]);
            return false;
        }
        i += 1;
    }
    assert(pattern@ =~= range.subrange(0, pattern@.len() as int));
    true
}

/// Tells whether the range `start..end` of `chars` is exactly `pattern`.
pub fn range_equals(chars: &Vec<char>, start: usize, end: usize, pattern: &Vec<char>) -> (r: bool)
    requires
        start <= end <= chars.len(),
    ensures
        r == (chars@.subrange(start as int, end as int) == pattern@),
{
    if end - start != pattern.len() {
        return false;
    }
    let r = range_starts_with(chars, start, end, pattern);
    proof {
        let range = chars@.subrange(start as int, end as int);
        assert(range.subrange(0, range.len() as int) =~= range);
    }
    r
}

/// Tells whether two texts hold the same characters.
pub fn same_text(a: &str, b: &str) -> (r: bool)
    ensures
        r == (a@ == b@),
{
    let x = chars_of(a);
    let y = chars_of(b);
    proof {
        assert(x@.subrange(0, x@.len() as int) =~= x@);
    }
    range_equals(&x, 0, x.len(), &y)
}

} // verus!
