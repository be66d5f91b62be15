//! Character-level helpers: white space, trimming, searching, and splitting
//! a text into lines. Executable functions work on a window `[from, to)` of
//! a character vector; their contracts speak of the corresponding
//! subsequence.

use vstd::prelude::*;

verus! {

/// Whether `c` is white space in Unicode's sense (`White_Space`).
pub open spec fn is_space(c: char) -> bool {
    let n = c as u32;
    ||| 0x09 <= n <= 0x0D
    ||| n == 0x20
    ||| n == 0x85
    ||| n == 0xA0
    ||| n == 0x1680
    ||| 0x2000 <= n <= 0x200A
    ||| n == 0x2028
    ||| n == 0x2029
    ||| n == 0x202F
    ||| n == 0x205F
    ||| n == 0x3000
}

/// `s` without its leading white space.
pub open spec fn trim_start(s: Seq<char>) -> Seq<char>
    decreases s.len(),
{
    if s.len() > 0 && is_space(s[0]) {
        trim_start(s.drop_first())
    } else {
        s
    }
}

/// `s` without its trailing white space.
pub open spec fn trim_end(s: Seq<char>) -> Seq<char>
    decreases s.len(),
{
    if s.len() > 0 && is_space(s.last()) {
        trim_end(s.drop_last())
    } else {
        s
    }
}

/// `s` without white space at either end.
pub open spec fn trimmed(s: Seq<char>) -> Seq<char> {
    trim_end(trim_start(s))
}

/// Index of the first occurrence of `c` in `s`, or `s.len()` if there is none.
pub open spec fn position(s: Seq<char>, c: char) -> int
    decreases s.len(),
{
    if s.len() == 0 || s[0] == c {
        0
    } else {
        1 + position(s.drop_first(), c)
    }
}

/// The pieces of `text` between line feeds. A text with `n` line feeds has
/// `n + 1` lines; the last one is empty when the text ends in a line feed.
pub open spec fn lines(text: Seq<char>) -> Seq<Seq<char>>
    decreases text.len(),
{
    let k = position(text, '\n');
    if 0 <= k < text.len() {
        seq![text.take(k)] + lines(text.skip(k + 1))
    } else {
        seq![text]
    }
}

/// `lines` joined again, one line feed between neighbours.
pub open spec fn joined(lines: Seq<Seq<char>>) -> Seq<char>
    decreases lines.len(),
{
    if lines.len() == 0 {
        Seq::empty()
    } else if lines.len() == 1 {
        lines[0]
    } else {
        lines[0] + seq!['\n'] + joined(lines.drop_first())
    }
}

/// `position` finds the first occurrence and nothing before it.
pub proof fn lemma_position(s: Seq<char>, c: char)
    ensures
        0 <= position(s, c) <= s.len(),
        position(s, c) < s.len() ==> s[position(s, c)] == c,
        forall|j: int| 0 <= j < position(s, c) ==> s[j] != c,
        position(s, c) == s.len() <==> !s.contains(c),
    decreases s.len(),
{
    if s.len() == 0 || s[0] == c {
    } else {
        let rest = s.drop_first();
        lemma_position(rest, c);
        assert forall|j: int| 0 <= j < position(s, c) implies s[j] != c by {
            if j > 0 {
                assert(s[j] == rest[j - 1]);
            }
        }
        if position(s, c) < s.len() {
            assert(s[position(s, c)] == rest[position(rest, c)]);
        }
        if s.contains(c) {
            let i = choose|i: int| 0 <= i < s.len() && s[i] == c;
            assert(rest[i - 1] == c);
        }
    }
}

/// Trimming removes characters from the two ends only, and what remains
/// neither begins nor ends with white space.
pub proof fn lemma_trimmed(s: Seq<char>)
    ensures
        trimmed(s).len() <= s.len(),
        trimmed(s).len() > 0 ==> !is_space(trimmed(s)[0]) && !is_space(trimmed(s).last()),
        exists|a: int, b: int| 0 <= a <= b <= s.len() && trimmed(s) == s.subrange(a, b),
        trimmed(trimmed(s)) == trimmed(s),
{
    lemma_trim_start(s);
    let t = trim_start(s);
    lemma_trim_end(t);
    let a = choose|a: int| 0 <= a <= s.len() && t == s.subrange(a, s.len() as int);
    let b = choose|b: int| 0 <= b <= t.len() && trim_end(t) == t.subrange(0, b);
    assert(trimmed(s) =~= s.subrange(a, a + b));
    let u = trimmed(s);
    if u.len() > 0 {
        assert(u[0] == t[0]);
    }
}

/// `trim_start` keeps a suffix that does not begin with white space.
pub proof fn lemma_trim_start(s: Seq<char>)
    ensures
        exists|a: int| 0 <= a <= s.len() && trim_start(s) == s.subrange(a, s.len() as int),
        trim_start(s).len() > 0 ==> !is_space(trim_start(s)[0]),
        trim_start(trim_start(s)) == trim_start(s),
    decreases s.len(),
{
    if s.len() > 0 && is_space(s[0]) {
        let rest = s.drop_first();
        lemma_trim_start(rest);
        let a = choose|a: int| 0 <= a <= rest.len() && trim_start(rest) == rest.subrange(a, rest.len() as int);
        assert(rest.subrange(a, rest.len() as int) =~= s.subrange(a + 1, s.len() as int));
    } else {
        assert(s =~= s.subrange(0, s.len() as int));
    }
}

/// `trim_end` keeps a prefix that does not end with white space.
pub proof fn lemma_trim_end(s: Seq<char>)
    ensures
        exists|b: int| 0 <= b <= s.len() && trim_end(s) == s.subrange(0, b),
        trim_end(s).len() > 0 ==> !is_space(trim_end(s).last()),
        trim_end(s).len() > 0 ==> trim_end(s)[0] == s[0],
        trim_end(trim_end(s)) == trim_end(s),
    decreases s.len(),
{
    if s.len() > 0 && is_space(s.last()) {
        let rest = s.drop_last();
        lemma_trim_end(rest);
        let b = choose|b: int| 0 <= b <= rest.len() && trim_end(rest) == rest.subrange(0, b);
        assert(rest.subrange(0, b) =~= s.subrange(0, b));
    } else {
        assert(s =~= s.subrange(0, s.len() as int));
    }
}

/// A sequence that neither begins nor ends with white space is its own
/// trimmed form.
pub proof fn lemma_trimmed_fixed(s: Seq<char>)
    requires
        s.len() > 0 ==> !is_space(s[0]) && !is_space(s.last()),
    ensures
        trimmed(s) == s,
{
}

/// Behind a prefix that ends in something other than white space, trimming
/// the end reaches no further than the prefix.
pub proof fn lemma_trim_end_after(prefix: Seq<char>, s: Seq<char>)
    requires
        prefix.len() > 0,
        !is_space(prefix.last()),
    ensures
        trim_end(prefix + s) == prefix + trim_end(s),
    decreases s.len(),
{
    let whole = prefix + s;
    if s.len() == 0 {
        assert(whole =~= prefix);
        assert(prefix + trim_end(s) =~= prefix);
    } else {
        assert(whole.last() == s.last());
        if is_space(s.last()) {
            assert(whole.drop_last() =~= prefix + s.drop_last());
            lemma_trim_end_after(prefix, s.drop_last());
        }
    }
}

/// Trimming the start of a sequence with one more character at its end.
pub proof fn lemma_trim_start_push(s: Seq<char>, c: char)
    ensures
        trim_start(s.push(c)) == if trim_start(s).len() > 0 {
            trim_start(s).push(c)
        } else {
            trim_start(seq![c])
        },
    decreases s.len(),
{
    if s.len() == 0 {
        assert(s.push(c) =~= seq![c]);
    } else if is_space(s[0]) {
        assert(s.push(c)[0] == s[0]);
        assert(s.push(c).drop_first() =~= s.drop_first().push(c));
        lemma_trim_start_push(s.drop_first(), c);
    } else {
        assert(s.push(c)[0] == s[0]);
    }
}

/// Whether the end is trimmed first or not, the trimmed form is the same.
pub proof fn lemma_trimmed_of_trim_end(s: Seq<char>)
    ensures
        trimmed(trim_end(s)) == trimmed(s),
    decreases s.len(),
{
    if s.len() > 0 && is_space(s.last()) {
        let front = s.drop_last();
        let c = s.last();
        lemma_trimmed_of_trim_end(front);
        assert(s =~= front.push(c));
        lemma_trim_start_push(front, c);
        let kept = trim_start(front);
        if kept.len() > 0 {
            assert(kept.push(c).last() == c);
            assert(kept.push(c).drop_last() =~= kept);
            assert(trim_end(kept.push(c)) == trim_end(kept));
        } else {
            let empty = Seq::<char>::empty();
            assert(seq![c][0] == c);
            assert(seq![c].drop_first() =~= empty);
            assert(trim_start(empty) == empty);
            assert(trim_start(seq![c]) == empty);
            assert(kept =~= empty);
        }
    }
}

/// The first `c` of `before + [c] + after` stands right behind `before`,
/// where `before` holds none.
pub proof fn lemma_position_after(before: Seq<char>, c: char, after: Seq<char>)
    requires
        !before.contains(c),
    ensures
        position(before + seq![c] + after, c) == before.len(),
{
    let s = before + seq![c] + after;
    lemma_position(s, c);
    let k = position(s, c);
    assert(s[before.len() as int] == c);
    if k < before.len() {
        assert(before[k] == s[k]);
    }
}

/// Splitting loses nothing: no line holds a line feed, and joining the
/// lines gives the text back.
pub proof fn lemma_lines(text: Seq<char>)
    ensures
        lines(text).len() >= 1,
        forall|i: int| 0 <= i < lines(text).len() ==> !(#[trigger] lines(text)[i]).contains('\n'),
        joined(lines(text)) == text,
    decreases text.len(),
{
    let k = position(text, '\n');
    lemma_position(text, '\n');
    if 0 <= k < text.len() {
        let rest = text.skip(k + 1);
        lemma_lines(rest);
        let head = text.take(k);
        let ls = lines(text);
        assert(ls.drop_first() =~= lines(rest));
        assert(!head.contains('\n')) by {
            if head.contains('\n') {
                let i = choose|i: int| 0 <= i < head.len() && head[i] == '\n';
                assert(text[i] == '\n');
            }
        }
        assert forall|i: int| 0 <= i < ls.len() implies !(#[trigger] ls[i]).contains('\n') by {
            if i > 0 {
                assert(ls[i] == lines(rest)[i - 1]);
            }
        }
        assert(head + seq!['\n'] + rest =~= text);
    } else {
    }
}

/// Decides [`is_space`].
pub fn space(c: char) -> (r: bool)
    ensures
        r == is_space(c),
{
    let n: u32 = c as u32;
    (0x09 <= n && n <= 0x0D) || n == 0x20 || n == 0x85 || n == 0xA0 || n == 0x1680 || (0x2000 <= n
        && n <= 0x200A) || n == 0x2028 || n == 0x2029 || n == 0x202F || n == 0x205F || n == 0x3000
}

/// The characters of `text`, in order.
pub fn chars_of(text: &str) -> (v: Vec<char>)
    ensures
        v@ == text@,
{
    let mut v: Vec<char> = Vec::new();
    for c in it: text.chars()
        invariant
            v@ == it.seq().take(it.index() as int),
    {
        v.push(c);
    }
    v
}

/// Finds the first `c` in the window `[from, to)` of `v`; returns `to` if
/// the window holds none.
pub fn find(v: &Vec<char>, from: usize, to: usize, c: char) -> (k: usize)
    requires
        from <= to <= v.len(),
    ensures
        from <= k <= to,
        k - from == position(v@.subrange(from as int, to as int), c),
{
    let mut i: usize = from;
    while i < to && v[i] != c
        invariant
            from <= i <= to <= v.len(),
            position(v@.subrange(from as int, to as int), c) == (i - from) + position(
                v@.subrange(i as int, to as int),
                c,
            ),
        decreases to - i,
    {
        assert(v@.subrange(i as int, to as int).drop_first() =~= v@.subrange(i + 1, to as int));
        i += 1;
    }
    i
}

/// Narrows the window `[from, to)` of `v` to what [`trimmed`] keeps of it.
pub fn trim(v: &Vec<char>, from: usize, to: usize) -> (r: (usize, usize))
    requires
        from <= to <= v.len(),
    ensures
        from <= r.0 <= r.1 <= to,
        v@.subrange(r.0 as int, r.1 as int) == trimmed(v@.subrange(from as int, to as int)),
{
    let mut a: usize = from;
    while a < to && space(v[a])
        invariant
            from <= a <= to <= v.len(),
            trim_start(v@.subrange(from as int, to as int)) == trim_start(
                v@.subrange(a as int, to as int),
            ),
        decreases to - a,
    {
        assert(v@.subrange(a as int, to as int).drop_first() =~= v@.subrange(a + 1, to as int));
        a += 1;
    }
    let mut b: usize = to;
    while a < b && space(v[b - 1])
        invariant
            a <= b <= to <= v.len(),
            trim_end(v@.subrange(a as int, to as int)) == trim_end(v@.subrange(a as int, b as int)),
        decreases b - a,
    {
        assert(v@.subrange(a as int, b as int).drop_last() =~= v@.subrange(a as int, b - 1));
        b -= 1;
    }
    (a, b)
}

/// Whether the window `[from, to)` of `v` spells `word`.
pub fn window_is(v: &Vec<char>, from: usize, to: usize, word: &Vec<char>) -> (r: bool)
    requires
        from <= to <= v.len(),
    ensures
        r == (v@.subrange(from as int, to as int) == word@),
{
    if to - from != word.len() {
        return false;
    }
    let mut i: usize = 0;
    while i < word.len()
        invariant
            from <= to <= v.len(),
            to - from == word.len(),
            i <= word.len(),
            forall|j: int| 0 <= j < i ==> v@[from + j] == word@[j],
        decreases word.len() - i,
    {
        if v[from + i] != word[i] {
            assert(v@.subrange(from as int, to as int)[i as int] != word@[i as int]);
            return false;
        }
        i += 1;
    }
    assert(v@.subrange(from as int, to as int) =~= word@);
    true
}

} // verus!
