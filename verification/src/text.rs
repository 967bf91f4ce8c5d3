//! Character-level helpers on strings: joining, splitting and prefixes.

use vstd::prelude::*;
use vstd::string::*;

verus! {

/// `list` with `sep` between consecutive items (empty for an empty list).
pub open spec fn join(list: Seq<Seq<char>>, sep: Seq<char>) -> Seq<char>
    decreases list.len(),
{
    if list.len() == 0 {
        Seq::empty()
    } else if list.len() == 1 {
        list[0]
    } else {
        list[0] + sep + join(list.drop_first(), sep)
    }
}

/// Index of the first `c` in `s`, or `s.len()` when `c` does not occur.
pub open spec fn find_char(s: Seq<char>, c: char) -> nat
    decreases s.len(),
{
    if s.len() == 0 {
        0
    } else if s[0] == c {
        0
    } else {
        1 + find_char(s.drop_first(), c)
    }
}

/// The pieces of `s` between occurrences of `c`; there is always at least one.
pub open spec fn split(s: Seq<char>, c: char) -> Seq<Seq<char>>
    decreases s.len(),
{
    let k = find_char(s, c);
    if k >= s.len() {
        seq![s]
    } else {
        seq![s.take(k as int)] + split(s.skip(k + 1 as int), c)
    }
}

/// `p` without one trailing carriage return.
pub open spec fn strip_cr(p: Seq<char>) -> Seq<char> {
    if p.len() > 0 && p.last() == '\r' {
        p.drop_last()
    } else {
        p
    }
}

/// The lines of `s`: split at `\n`, a `\r` before the `\n` dropped, and no
/// empty line after a final `\n`.
pub open spec fn lines(s: Seq<char>) -> Seq<Seq<char>>
    decreases s.len(),
{
    if s.len() == 0 {
        Seq::empty()
    } else {
        let k = find_char(s, '\n');
        if k >= s.len() {
            seq![s]
        } else {
            seq![strip_cr(s.take(k as int))] + lines(s.skip(k + 1 as int))
        }
    }
}

/// The characters with the Unicode `White_Space` property (what
/// `char::is_whitespace` accepts).
pub open spec fn is_whitespace(c: char) -> bool {
    ||| '\u{9}' <= c <= '\u{d}'
    ||| c == ' '
    ||| c == '\u{85}'
    ||| c == '\u{a0}'
    ||| c == '\u{1680}'
    ||| '\u{2000}' <= c <= '\u{200a}'
    ||| c == '\u{2028}'
    ||| c == '\u{2029}'
    ||| c == '\u{202f}'
    ||| c == '\u{205f}'
    ||| c == '\u{3000}'
}

/// `s` without its leading whitespace.
pub open spec fn trim_start(s: Seq<char>) -> Seq<char>
    decreases s.len(),
{
    if s.len() > 0 && is_whitespace(s[0]) {
        trim_start(s.drop_first())
    } else {
        s
    }
}

/// `s` without its trailing whitespace.
pub open spec fn trim_end(s: Seq<char>) -> Seq<char>
    decreases s.len(),
{
    if s.len() > 0 && is_whitespace(s.last()) {
        trim_end(s.drop_last())
    } else {
        s
    }
}

/// `s` without leading and trailing whitespace (what `str::trim` gives).
pub open spec fn trim(s: Seq<char>) -> Seq<char> {
    trim_end(trim_start(s))
}

pub proof fn lemma_trim_start(s: Seq<char>, a: int)
    requires
        0 <= a <= s.len(),
        forall|j: int| 0 <= j < a ==> is_whitespace(s[j]),
        a == s.len() || !is_whitespace(s[a]),
    ensures
        trim_start(s) == s.skip(a),
    decreases a,
{
    if a == 0 {
        assert(s.skip(0) =~= s);
    } else {
        let t = s.drop_first();
        assert forall|j: int| 0 <= j < a - 1 implies is_whitespace(t[j]) by {
            assert(t[j] == s[j + 1]);
        }
        if a < s.len() {
            assert(t[a - 1] == s[a]);
        }
        lemma_trim_start(t, a - 1);
        assert(t.skip(a - 1) =~= s.skip(a));
    }
}

pub proof fn lemma_trim_end(s: Seq<char>, b: int)
    requires
        0 <= b <= s.len(),
        forall|j: int| b <= j < s.len() ==> is_whitespace(s[j]),
        b == 0 || !is_whitespace(s[b - 1]),
    ensures
        trim_end(s) == s.take(b),
    decreases s.len() - b,
{
    if b == s.len() {
        assert(s.take(b) =~= s);
    } else {
        let t = s.drop_last();
        assert forall|j: int| b <= j < t.len() implies is_whitespace(t[j]) by {
            assert(t[j] == s[j]);
        }
        if b > 0 {
            assert(t[b - 1] == s[b - 1]);
        }
        lemma_trim_end(t, b);
        assert(t.take(b) =~= s.take(b));
    }
}

/// Whether `c` is whitespace (as `char::is_whitespace` says).
pub fn char_is_whitespace(c: char) -> (b: bool)
    ensures
        b == is_whitespace(c),
{
    ('\u{9}' <= c && c <= '\u{d}') || c == ' ' || c == '\u{85}' || c == '\u{a0}' || c == '\u{1680}'
        || ('\u{2000}' <= c && c <= '\u{200a}') || c == '\u{2028}' || c == '\u{2029}' || c == '\u{202f}'
        || c == '\u{205f}' || c == '\u{3000}'
}

/// The bounds of `chars[from..to]` without leading and trailing whitespace.
pub fn trimmed_bounds(chars: &Vec<char>, from: usize, to: usize) -> (r: (usize, usize))
    requires
        from <= to <= chars@.len(),
    ensures
        from <= r.0 <= r.1 <= to,
        chars@.subrange(r.0 as int, r.1 as int) == trim(chars@.subrange(from as int, to as int)),
{
    let ghost s = chars@.subrange(from as int, to as int);
    let mut a = from;
    while a < to && char_is_whitespace(chars[a])
        invariant
            from <= a <= to <= chars@.len(),
            forall|j: int| from <= j < a ==> is_whitespace(chars@[j]),
        decreases to - a,
    {
        a = a + 1;
    }
    proof {
        lemma_trim_start(s, a - from);
        assert(s.skip(a - from) =~= chars@.subrange(a as int, to as int));
    }
    let ghost t = chars@.subrange(a as int, to as int);
    let mut b = to;
    while b > a && char_is_whitespace(chars[b - 1])
        invariant
            a <= b <= to <= chars@.len(),
            forall|j: int| b <= j < to ==> is_whitespace(chars@[j]),
        decreases b - a,
    {
        b = b - 1;
    }
    proof {
        lemma_trim_end(t, b - a);
        assert(t.take(b - a) =~= chars@.subrange(a as int, b as int));
    }
    (a, b)
}

/// Finds the line of `s` that starts at `pos`: it ends (without its line
/// terminator) at `r.0`, and the next line starts at `r.1`.
pub fn next_line(chars: &Vec<char>, pos: usize) -> (r: (usize, usize))
    requires
        pos < chars@.len(),
    ensures
        pos <= r.0 < r.1 + 1,
        pos < r.1 <= chars@.len(),
        r.0 <= chars@.len(),
        lines(chars@.skip(pos as int)) == seq![chars@.subrange(pos as int, r.0 as int)] + lines(
            chars@.skip(r.1 as int),
        ),
{
    let n = chars.len();
    let ghost t = chars@.skip(pos as int);
    let mut k = pos;
    while k < n && chars[k] != '\n'
        invariant
            pos <= k <= n,
            n == chars@.len(),
            forall|j: int| pos <= j < k ==> chars@[j] != '\n',
        decreases n - k,
    {
        k = k + 1;
    }
    let mut end = k;
    if k < n && end > pos && chars[end - 1] == '\r' {
        end = end - 1;
    }
    proof {
        lemma_find_char(t, '\n', k - pos);
        if k < n {
            assert(t.take(k - pos) =~= chars@.subrange(pos as int, k as int));
            assert(chars@.subrange(pos as int, end as int) =~= strip_cr(t.take(k - pos)));
            assert(t.skip(k - pos + 1) =~= chars@.skip(k + 1));
        } else {
            assert(t =~= chars@.subrange(pos as int, end as int));
            assert(chars@.skip(n as int) =~= Seq::<char>::empty());
        }
    }
    if k < n {
        (end, k + 1)
    } else {
        (end, n)
    }
}

/// Text that ends in a line break (or is empty) keeps its lines apart from
/// what follows it.
pub proof fn lemma_lines_concat(a: Seq<char>, b: Seq<char>)
    requires
        a.len() == 0 || a.last() == '\n',
    ensures
        lines(a + b) == lines(a) + lines(b),
    decreases a.len(),
{
    if a.len() == 0 {
        assert(a + b =~= b);
        assert(lines(a) =~= Seq::<Seq<char>>::empty());
        assert(lines(a) + lines(b) =~= lines(b));
    } else {
        let k = find_char(a, '\n');
        lemma_find_char_bound(a, '\n');
        let ab = a + b;
        assert forall|j: int| 0 <= j < k implies ab[j] != '\n' by {
            assert(ab[j] == a[j]);
        }
        if k >= a.len() {
            assert(a[a.len() - 1] == '\n');
            assert(false);
        }
        assert(ab[k as int] == a[k as int]);
        lemma_find_char(ab, '\n', k as int);
        assert(ab.take(k as int) =~= a.take(k as int));
        assert(ab.skip(k + 1 as int) =~= a.skip(k + 1 as int) + b);
        let rest = a.skip(k + 1 as int);
        if rest.len() > 0 {
            assert(rest.last() == a.last());
        }
        lemma_lines_concat(rest, b);
        assert(lines(ab) =~= seq![strip_cr(a.take(k as int))] + (lines(rest) + lines(b)));
        assert(lines(a) == seq![strip_cr(a.take(k as int))] + lines(rest));
        assert(lines(ab) =~= lines(a) + lines(b));
    }
}

/// `s` begins with `prefix`.
pub open spec fn has_prefix(s: Seq<char>, prefix: Seq<char>) -> bool {
    prefix.len() <= s.len() && s.take(prefix.len() as int) == prefix
}

/// `s` without `prefix` when it begins with it.
pub open spec fn strip_prefix(s: Seq<char>, prefix: Seq<char>) -> Option<Seq<char>> {
    if has_prefix(s, prefix) {
        Some(s.skip(prefix.len() as int))
    } else {
        None
    }
}

/// The character views of a list of strings.
pub open spec fn views(list: Seq<String>) -> Seq<Seq<char>> {
    list.map_values(|x: String| x@)
}

pub proof fn lemma_find_char(s: Seq<char>, c: char, k: int)
    requires
        0 <= k <= s.len(),
        forall|j: int| 0 <= j < k ==> s[j] != c,
        k == s.len() || s[k] == c,
    ensures
        find_char(s, c) == k,
    decreases k,
{
    if k > 0 {
        let t = s.drop_first();
        assert forall|j: int| 0 <= j < k - 1 implies t[j] != c by {
            assert(t[j] == s[j + 1]);
        }
        if k < s.len() {
            assert(t[k - 1] == s[k]);
        }
        lemma_find_char(t, c, k - 1);
    }
}

pub proof fn lemma_find_char_bound(s: Seq<char>, c: char)
    ensures
        find_char(s, c) <= s.len(),
        find_char(s, c) < s.len() ==> s[find_char(s, c) as int] == c,
        forall|j: int| 0 <= j < find_char(s, c) && j < s.len() ==> s[j] != c,
    decreases s.len(),
{
    if s.len() > 0 && s[0] != c {
        lemma_find_char_bound(s.drop_first(), c);
        assert forall|j: int| 0 <= j < find_char(s, c) && j < s.len() implies s[j] != c by {
            if j > 0 {
                assert(s[j] == s.drop_first()[j - 1]);
            }
        }
    }
}

/// Appending an item to a list appends the separator and the item to its join.
pub proof fn lemma_join_push(list: Seq<Seq<char>>, sep: Seq<char>, x: Seq<char>)
    ensures
        join(list.push(x), sep) == if list.len() == 0 {
            x
        } else {
            join(list, sep) + sep + x
        },
    decreases list.len(),
{
    if list.len() == 0 {
        assert(list.push(x) =~= seq![x]);
    } else if list.len() == 1 {
        assert(list.push(x).drop_first() =~= seq![x]);
        assert(join(seq![x], sep) == x);
        assert(list.push(x)[0] == list[0]);
        assert(join(list, sep) == list[0]);
    } else {
        lemma_join_push(list.drop_first(), sep, x);
        assert(list.push(x).drop_first() =~= list.drop_first().push(x));
        assert(list.push(x)[0] == list[0]);
        assert(join(list.push(x), sep) == list[0] + sep + join(list.drop_first().push(x), sep));
        assert(join(list.push(x), sep) =~= list[0] + sep + join(list.drop_first(), sep) + sep + x);
    }
}

/// Splitting on a character and joining the pieces with that character gives the string back.
pub proof fn lemma_join_split(s: Seq<char>, c: char)
    ensures
        join(split(s, c), seq![c]) == s,
    decreases s.len(),
{
    let k = find_char(s, c);
    lemma_find_char_bound(s, c);
    if k < s.len() {
        lemma_join_split(s.skip(k + 1 as int), c);
        let rest = split(s.skip(k + 1 as int), c);
        assert(rest.len() >= 1) by {
            reveal_with_fuel(split, 1);
        }
        let l = seq![s.take(k as int)] + rest;
        assert(l.drop_first() =~= rest);
        assert(s =~= s.take(k as int) + seq![c] + s.skip(k + 1 as int));
    }
}

/// No piece of a split contains the character split on.
pub proof fn lemma_split_pieces(s: Seq<char>, c: char)
    ensures
        split(s, c).len() >= 1,
        forall|i: int, j: int|
            0 <= i < split(s, c).len() && 0 <= j < split(s, c)[i].len() ==> split(s, c)[i][j] != c,
    decreases s.len(),
{
    let k = find_char(s, c);
    lemma_find_char_bound(s, c);
    if k < s.len() {
        lemma_split_pieces(s.skip(k + 1 as int), c);
        let rest = split(s.skip(k + 1 as int), c);
        assert forall|i: int, j: int|
            0 <= i < split(s, c).len() && 0 <= j < split(s, c)[i].len() implies split(s, c)[i][j] != c by {
            if i > 0 {
                assert(split(s, c)[i] == rest[i - 1]);
            }
        }
    }
}

/// The characters of `s`, in order.
pub fn chars_of(s: &str) -> (v: Vec<char>)
    ensures
        v@ == s@,
{
    let mut v: Vec<char> = Vec::new();
    for c in it: s.chars()
        invariant
            v@ == it.seq().take(it.index() as int),
            it.seq() == s@,
    {
        v.push(c);
    }
    v
}

/// An owned copy of the characters `from..to` of `s`.
pub fn substring(s: &str, from: usize, to: usize) -> (r: String)
    requires
        from <= to <= s@.len(),
    ensures
        r@ == s@.subrange(from as int, to as int),
{
    String::from_str(s.substring_char(from, to))
}

/// Whether `chars[from..to]` begins with the characters of `prefix`.
pub fn has_prefix_at(chars: &Vec<char>, from: usize, to: usize, prefix: &str) -> (b: bool)
    requires
        from <= to <= chars@.len(),
    ensures
        b == has_prefix(chars@.subrange(from as int, to as int), prefix@),
{
    let p = chars_of(prefix);
    let n = p.len();
    if n > to - from {
        return false;
    }
    let mut i: usize = 0;
    while i < n
        invariant
            n == p@.len(),
            n <= to - from,
            from <= to <= chars@.len(),
            i <= n,
            p@ == prefix@,
            forall|j: int| 0 <= j < i ==> chars@[from + j] == p@[j],
        decreases n - i,
    {
        if chars[from + i] != p[i] {
            assert(chars@.subrange(from as int, to as int).take(n as int)[i as int] != prefix@[i as int]);
            return false;
        }
        i = i + 1;
    }
    assert(chars@.subrange(from as int, to as int).take(n as int) =~= prefix@);
    true
}

/// Whether `chars[from..to]` equals the characters of `word`.
pub fn equals_at(chars: &Vec<char>, from: usize, to: usize, word: &str) -> (b: bool)
    requires
        from <= to <= chars@.len(),
    ensures
        b == (chars@.subrange(from as int, to as int) == word@),
{
    let n = word.unicode_len();
    if n != to - from {
        assert(chars@.subrange(from as int, to as int).len() != word@.len());
        return false;
    }
    let r = has_prefix_at(chars, from, to, word);
    proof {
        let sub = chars@.subrange(from as int, to as int);
        assert(sub =~= sub.take(n as int));
    }
    r
}

/// `list` joined with `sep` between consecutive items.
pub fn join_strings(list: &Vec<String>, sep: &str) -> (r: String)
    ensures
        r@ == join(views(list@), sep@),
{
    let mut r = String::new();
    let mut i: usize = 0;
    while i < list.len()
        invariant
            i <= list@.len(),
            r@ == join(views(list@).take(i as int), sep@),
        decreases list@.len() - i,
    {
        proof {
            lemma_join_push(views(list@).take(i as int), sep@, list@[i as int]@);
            assert(views(list@).take(i as int).push(list@[i as int]@) =~= views(list@).take(i + 1));
        }
        if i > 0 {
            r.append(sep);
        }
        r.append(list[i].as_str());
        i = i + 1;
    }
    assert(views(list@).take(i as int) =~= views(list@));
    r
}

/// The pieces of `s` between occurrences of `c`.
pub fn split_on(s: &str, c: char) -> (r: Vec<String>)
    ensures
        views(r@) == split(s@, c),
{
    let chars = chars_of(s);
    let n = chars.len();
    let mut r: Vec<String> = Vec::new();
    let mut start: usize = 0;
    let mut i: usize = 0;
    proof {
        assert(s@.skip(0) =~= s@);
    }
    while i < n
        invariant
            n == chars@.len(),
            chars@ == s@,
            start <= i <= n,
            forall|j: int| start <= j < i ==> chars@[j] != c,
            views(r@) + split(s@.skip(start as int), c) == split(s@, c),
        decreases n - i,
    {
        if chars[i] == c {
            proof {
                let t = s@.skip(start as int);
                lemma_find_char(t, c, i - start);
                assert(t.take(i - start) =~= s@.subrange(start as int, i as int));
                assert(t.skip(i - start + 1) =~= s@.skip(i + 1));
            }
            let piece = substring(s, start, i);
            proof {
                assert(views(r@.push(piece)) =~= views(r@).push(piece@));
            }
            r.push(piece);
            start = i + 1;
        }
        i = i + 1;
    }
    proof {
        let t = s@.skip(start as int);
        lemma_find_char(t, c, n - start);
        assert(t =~= s@.subrange(start as int, n as int));
    }
    let last = substring(s, start, n);
    proof {
        assert(views(r@.push(last)) =~= views(r@).push(last@));
    }
    r.push(last);
    r
}

} // verus!
