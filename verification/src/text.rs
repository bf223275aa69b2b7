//! Character-level helpers on strings, with their mathematical meaning.

use vstd::prelude::*;

verus! {

broadcast use vstd::string::group_string_axioms;

/// The index of the first `c` in `s` at or after `i`, if there is one.
pub open spec fn find_from(s: Seq<char>, c: char, i: int) -> Option<int>
    decreases s.len() - i,
{
    if i < 0 || i >= s.len() {
        None
    } else if s[i] == c {
        Some(i)
    } else {
        find_from(s, c, i + 1)
    }
}

/// What [`find_from`] finds: an occurrence of `c` with none before it, or no
/// occurrence at all.
pub proof fn lemma_find_from(s: Seq<char>, c: char, i: int)
    requires
        0 <= i,
    ensures
        match find_from(s, c, i) {
            Some(k) => i <= k < s.len() && s[k] == c && forall|j: int| i <= j < k ==> s[j] != c,
            None => forall|j: int| i <= j < s.len() ==> s[j] != c,
        },
    decreases s.len() - i,
{
    if i < s.len() && s[i] != c {
        lemma_find_from(s, c, i + 1);
    }
}

/// [`find_from`] finds the first occurrence at or after `i`.
pub proof fn lemma_find_from_at(s: Seq<char>, c: char, i: int, k: int)
    requires
        0 <= i <= k < s.len(),
        s[k] == c,
        forall|j: int| i <= j < k ==> s[j] != c,
    ensures
        find_from(s, c, i) == Some(k),
    decreases k - i,
{
    if i < k {
        lemma_find_from_at(s, c, i + 1, k);
    }
}

/// The index of the first `c` in `s`, if there is one.
pub open spec fn find_first(s: Seq<char>, c: char) -> Option<int> {
    find_from(s, c, 0)
}

/// The pieces of `s` between the occurrences of `d`, as `str::split` yields them:
/// there is always at least one piece, and `k` delimiters give `k + 1` pieces.
pub open spec fn split_pieces(s: Seq<char>, d: char) -> Seq<Seq<char>>
    decreases s.len(),
{
    if s.len() == 0 {
        seq![Seq::<char>::empty()]
    } else {
        let pieces = split_pieces(s.drop_last(), d);
        if s.last() == d {
            pieces.push(Seq::<char>::empty())
        } else {
            pieces.update(pieces.len() - 1, pieces.last().push(s.last()))
        }
    }
}

/// There is always at least one piece.
pub proof fn lemma_split_pieces_nonempty(s: Seq<char>, d: char)
    ensures
        split_pieces(s, d).len() >= 1,
    decreases s.len(),
{
    if s.len() > 0 {
        lemma_split_pieces_nonempty(s.drop_last(), d);
    }
}

/// The pieces in `ps` joined with `d` between each two of them.
pub open spec fn join_pieces(ps: Seq<Seq<char>>, d: char) -> Seq<char>
    decreases ps.len(),
{
    if ps.len() == 0 {
        Seq::<char>::empty()
    } else if ps.len() == 1 {
        ps[0]
    } else {
        join_pieces(ps.drop_last(), d).push(d) + ps.last()
    }
}

/// Appending to the last piece appends to the joined text.
proof fn lemma_join_extend_last(ps: Seq<Seq<char>>, d: char, c: char)
    requires
        ps.len() >= 1,
    ensures
        join_pieces(ps.update(ps.len() - 1, ps.last().push(c)), d) == join_pieces(ps, d).push(c),
{
    let q = ps.update(ps.len() - 1, ps.last().push(c));
    if ps.len() > 1 {
        assert(q.drop_last() =~= ps.drop_last());
        assert(join_pieces(q, d) == join_pieces(ps.drop_last(), d).push(d) + ps.last().push(c));
        assert(join_pieces(ps.drop_last(), d).push(d) + ps.last().push(c) =~= (join_pieces(
            ps.drop_last(),
            d,
        ).push(d) + ps.last()).push(c));
    }
}

/// Splitting a text at a delimiter and joining the pieces with it gives the
/// text back.
pub proof fn lemma_split_join(s: Seq<char>, d: char)
    ensures
        join_pieces(split_pieces(s, d), d) == s,
    decreases s.len(),
{
    if s.len() == 0 {
    } else {
        let t = s.drop_last();
        lemma_split_join(t, d);
        lemma_split_pieces_nonempty(t, d);
        let p = split_pieces(t, d);
        if s.last() == d {
            let q = p.push(Seq::<char>::empty());
            assert(q.drop_last() =~= p);
            assert(join_pieces(q, d) == join_pieces(p, d).push(d) + Seq::<char>::empty());
            assert(t.push(d) + Seq::<char>::empty() =~= s);
        } else {
            lemma_join_extend_last(p, d, s.last());
            assert(t.push(s.last()) =~= s);
        }
    }
}

/// No piece of a split holds the delimiter.
pub proof fn lemma_split_pieces_lack_delimiter(s: Seq<char>, d: char)
    ensures
        forall|i: int|
            0 <= i < split_pieces(s, d).len() ==> !(#[trigger] split_pieces(s, d)[i]).contains(d),
    decreases s.len(),
{
    if s.len() > 0 {
        let t = s.drop_last();
        lemma_split_pieces_lack_delimiter(t, d);
        lemma_split_pieces_nonempty(t, d);
        let p = split_pieces(t, d);
        if s.last() != d {
            let last = p.last().push(s.last());
            assert forall|k: int| 0 <= k < last.len() implies last[k] != d by {
                if k < p.last().len() {
                    assert(p.last().contains(p.last()[k]) ==> p.last()[k] != d);
                }
            }
        }
    }
}

/// Splitting two texts joined by the delimiter gives the pieces of the first
/// followed by the pieces of the second.
pub proof fn lemma_split_pieces_concat(x: Seq<char>, y: Seq<char>, d: char)
    ensures
        split_pieces(x.push(d) + y, d) == split_pieces(x, d) + split_pieces(y, d),
    decreases y.len(),
{
    if y.len() == 0 {
        assert(x.push(d) + y =~= x.push(d));
        assert(x.push(d).drop_last() =~= x);
        assert(split_pieces(y, d) == seq![Seq::<char>::empty()]);
        assert(split_pieces(x, d).push(Seq::<char>::empty()) =~= split_pieces(x, d) + seq![
            Seq::<char>::empty(),
        ]);
    } else {
        let y0 = y.drop_last();
        let c = y.last();
        lemma_split_pieces_concat(x, y0, d);
        lemma_split_pieces_nonempty(y0, d);
        let s = x.push(d) + y;
        assert(s.drop_last() =~= x.push(d) + y0);
        assert(s.last() == c);
        let a = split_pieces(x, d);
        let b = split_pieces(y0, d);
        if c == d {
            assert((a + b).push(Seq::<char>::empty()) =~= a + b.push(Seq::<char>::empty()));
        } else {
            assert((a + b).last() == b.last());
            assert((a + b).update((a + b).len() - 1, b.last().push(c)) =~= a + b.update(
                b.len() - 1,
                b.last().push(c),
            ));
        }
    }
}

/// A text without the delimiter is a single piece.
pub proof fn lemma_split_pieces_single(s: Seq<char>, d: char)
    requires
        !s.contains(d),
    ensures
        split_pieces(s, d) == seq![s],
    decreases s.len(),
{
    if s.len() > 0 {
        let t = s.drop_last();
        assert(!t.contains(d)) by {
            if t.contains(d) {
                let k = choose|k: int| 0 <= k < t.len() && t[k] == d;
                assert(s[k] == d);
            }
        }
        lemma_split_pieces_single(t, d);
        assert(s[s.len() - 1] != d);
        assert(t.push(s.last()) =~= s);
        assert(seq![t].update(0, t.push(s.last())) =~= seq![s]);
    } else {
        assert(s =~= Seq::<char>::empty());
    }
}

/// The last piece of a split is the longest end of the text without the
/// delimiter: the text from some index `k` on, where `k` is the start of the
/// text or follows a delimiter.
pub proof fn lemma_split_pieces_last_is_suffix(s: Seq<char>, d: char)
    ensures
        exists|k: int|
            0 <= k <= s.len() && #[trigger] s.skip(k) == split_pieces(s, d).last() && !s.skip(
                k,
            ).contains(d) && (k == 0 || s[k - 1] == d),
    decreases s.len(),
{
    lemma_split_pieces_nonempty(s, d);
    if s.len() == 0 {
        assert(s.skip(0) =~= s);
        assert(s.skip(0) == split_pieces(s, d).last());
    } else {
        let t = s.drop_last();
        lemma_split_pieces_last_is_suffix(t, d);
        lemma_split_pieces_nonempty(t, d);
        let k0 = choose|k: int|
            0 <= k <= t.len() && #[trigger] t.skip(k) == split_pieces(t, d).last() && !t.skip(
                k,
            ).contains(d) && (k == 0 || t[k - 1] == d);
        if s.last() == d {
            let k = s.len() as int;
            assert(s.skip(k) =~= Seq::<char>::empty());
            assert(s.skip(k) == split_pieces(s, d).last());
        } else {
            assert(s.skip(k0) =~= t.skip(k0).push(s.last()));
            assert(s.skip(k0) == split_pieces(s, d).last());
            assert(!s.skip(k0).contains(d)) by {
                if s.skip(k0).contains(d) {
                    let j = choose|j: int| 0 <= j < s.skip(k0).len() && s.skip(k0)[j] == d;
                    if j < t.skip(k0).len() {
                        assert(t.skip(k0)[j] == d);
                    }
                }
            }
            assert(k0 == 0 || s[k0 - 1] == d);
        }
    }
}

/// Dropping the leading `c`s of a text leaves an end of it, from an index
/// that is the start of the text or follows a `c`.
pub proof fn lemma_strip_leading_is_suffix(s: Seq<char>, c: char)
    ensures
        exists|j: int|
            0 <= j <= s.len() && #[trigger] s.skip(j) == strip_leading(s, c) && (j == 0 || s[j
                - 1] == c),
    decreases s.len(),
{
    if s.len() > 0 && s[0] == c {
        let t = s.drop_first();
        lemma_strip_leading_is_suffix(t, c);
        let j0 = choose|j: int|
            0 <= j <= t.len() && #[trigger] t.skip(j) == strip_leading(t, c) && (j == 0 || t[j
                - 1] == c);
        assert(s.skip(j0 + 1) =~= t.skip(j0));
        assert(s[j0] == c) by {
            if j0 > 0 {
                assert(t[j0 - 1] == s[j0]);
            }
        }
        assert(s.skip(j0 + 1) == strip_leading(s, c));
    } else {
        assert(s.skip(0) =~= s);
        assert(s.skip(0) == strip_leading(s, c));
    }
}

/// `s` without the occurrences of `c` at its start.
pub open spec fn strip_leading(s: Seq<char>, c: char) -> Seq<char>
    decreases s.len(),
{
    if s.len() > 0 && s[0] == c {
        strip_leading(s.drop_first(), c)
    } else {
        s
    }
}

/// Whether `c` has the Unicode `White_Space` property, as `char::is_whitespace` decides it.
pub open spec fn is_whitespace(c: char) -> bool {
    let u = c as u32;
    ||| 0x09 <= u <= 0x0d
    ||| u == 0x20
    ||| u == 0x85
    ||| u == 0xa0
    ||| u == 0x1680
    ||| 0x2000 <= u <= 0x200a
    ||| u == 0x2028
    ||| u == 0x2029
    ||| u == 0x202f
    ||| u == 0x205f
    ||| u == 0x3000
}

/// `s` without the whitespace at its start.
pub open spec fn trim_start_ws(s: Seq<char>) -> Seq<char>
    decreases s.len(),
{
    if s.len() > 0 && is_whitespace(s[0]) {
        trim_start_ws(s.drop_first())
    } else {
        s
    }
}

/// `s` without the whitespace at its end.
pub open spec fn trim_end_ws(s: Seq<char>) -> Seq<char>
    decreases s.len(),
{
    if s.len() > 0 && is_whitespace(s.last()) {
        trim_end_ws(s.drop_last())
    } else {
        s
    }
}

/// `s` without whitespace at either end, as `str::trim` gives it.
pub open spec fn trim_ws(s: Seq<char>) -> Seq<char> {
    trim_end_ws(trim_start_ws(s))
}

/// Decides `char::is_whitespace`.
pub fn char_is_whitespace(c: char) -> (r: bool)
    ensures
        r == is_whitespace(c),
{
    let u = c as u32;
    (0x09 <= u && u <= 0x0d) || u == 0x20 || u == 0x85 || u == 0xa0 || u == 0x1680 || (0x2000
        <= u && u <= 0x200a) || u == 0x2028 || u == 0x2029 || u == 0x202f || u == 0x205f || u
        == 0x3000
}

/// The characters of `s`.
pub fn chars_of(s: &str) -> (r: Vec<char>)
    ensures
        r@ == s@,
{
    let mut r: Vec<char> = Vec::new();
    for c in it: s.chars()
        invariant
            r@ == it.seq().take(it.index() as int),
    {
        r.push(c);
    }
    r
}

/// The characters of `s` from index `a` up to index `b`, as an owned string.
pub fn substring(s: &str, a: usize, b: usize) -> (r: String)
    requires
        a <= b <= s@.len(),
    ensures
        r@ == s@.subrange(a as int, b as int),
{
    s.substring_char(a, b).to_string()
}

/// Whether the two strings hold the same characters.
pub fn str_eq(a: &str, b: &str) -> (r: bool)
    ensures
        r == (a@ == b@),
{
    let x = chars_of(a);
    let y = chars_of(b);
    if x.len() != y.len() {
        return false;
    }
    let mut i: usize = 0;
    while i < x.len()
        invariant
            x@ == a@,
            y@ == b@,
            x.len() == y.len(),
            i <= x.len(),
            forall|j: int| 0 <= j < i ==> x@[j] == y@[j],
        decreases x.len() - i,
    {
        if x[i] != y[i] {
            return false;
        }
        i = i + 1;
    }
    assert(x@ =~= y@);
    true
}

/// The index of the first `c` in `v` at or after `from`, if there is one.
pub fn find_char_from(v: &Vec<char>, c: char, from: usize) -> (r: Option<usize>)
    ensures
        match r {
            Some(i) => find_from(v@, c, from as int) == Some(i as int),
            None => find_from(v@, c, from as int) is None,
        },
        r matches Some(i) ==> from <= i < v.len() && v@[i as int] == c,
{
    let mut i = from;
    while i < v.len()
        invariant
            from <= i,
            find_from(v@, c, from as int) == find_from(v@, c, i as int),
        decreases v.len() - i,
    {
        if v[i] == c {
            return Some(i);
        }
        i = i + 1;
    }
    None
}

/// The pieces of `s` from character index `from` on, split at each `d`.
pub fn split_from(s: &str, chars: &Vec<char>, from: usize, d: char) -> (r: Vec<String>)
    requires
        chars@ == s@,
        from <= chars.len(),
    ensures
        r@.map_values(|p: String| p@) == split_pieces(s@.skip(from as int), d),
{
    let ghost t = s@.skip(from as int);
    let mut r: Vec<String> = Vec::new();
    let mut start = from;
    let mut i = from;
    assert(t.take(0) =~= Seq::<char>::empty());
    assert(s@.subrange(start as int, i as int) =~= Seq::<char>::empty());
    assert(r@.map_values(|p: String| p@) =~= Seq::<Seq<char>>::empty());
    assert(r@.map_values(|p: String| p@).push(s@.subrange(start as int, i as int)) =~= seq![
        Seq::<char>::empty(),
    ]);
    while i < chars.len()
        invariant
            chars@ == s@,
            t == s@.skip(from as int),
            from <= start <= i <= chars.len(),
            r@.map_values(|p: String| p@).push(s@.subrange(start as int, i as int))
                == split_pieces(t.take(i - from), d),
        decreases chars.len() - i,
    {
        let ghost before = r@.map_values(|p: String| p@);
        assert(t.take(i + 1 - from).drop_last() =~= t.take(i - from));
        assert(t.take(i + 1 - from).last() == chars@[i as int]);
        if chars[i] == d {
            let piece = substring(s, start, i);
            r.push(piece);
            assert(r@.map_values(|p: String| p@) =~= before.push(s@.subrange(start as int, i as int)));
            start = i + 1;
            assert(s@.subrange(start as int, (i + 1) as int) =~= Seq::<char>::empty());
        } else {
            assert(s@.subrange(start as int, (i + 1) as int) =~= s@.subrange(start as int, i as int).push(chars@[i as int]));
        }
        i = i + 1;
    }
    let last = substring(s, start, chars.len());
    let ghost before = r@.map_values(|p: String| p@);
    r.push(last);
    assert(r@.map_values(|p: String| p@) =~= before.push(s@.subrange(start as int, chars.len() as int)));
    assert(t.take(chars.len() - from) =~= t);
    r
}

/// The first index at or after `from` that does not hold `c` (or the end of `v`).
pub fn skip_char(v: &Vec<char>, c: char, from: usize) -> (r: usize)
    requires
        from <= v.len(),
    ensures
        from <= r <= v.len(),
        strip_leading(v@.skip(from as int), c) == v@.skip(r as int),
{
    let mut i = from;
    while i < v.len() && v[i] == c
        invariant
            from <= i <= v.len(),
            strip_leading(v@.skip(from as int), c) == strip_leading(v@.skip(i as int), c),
        decreases v.len() - i,
    {
        assert(v@.skip(i as int).drop_first() =~= v@.skip(i + 1));
        i = i + 1;
    }
    assert(strip_leading(v@.skip(i as int), c) == v@.skip(i as int));
    i
}

/// The bounds of `v[a..b]` once whitespace is trimmed from both of its ends.
pub fn trim_ws_bounds(v: &Vec<char>, a: usize, b: usize) -> (r: (usize, usize))
    requires
        a <= b <= v.len(),
    ensures
        a <= r.0 <= r.1 <= b,
        v@.subrange(r.0 as int, r.1 as int) == trim_ws(v@.subrange(a as int, b as int)),
{
    let mut i = a;
    while i < b && char_is_whitespace(v[i])
        invariant
            a <= i <= b <= v.len(),
            trim_start_ws(v@.subrange(a as int, b as int)) == trim_start_ws(
                v@.subrange(i as int, b as int),
            ),
        decreases b - i,
    {
        assert(v@.subrange(i as int, b as int).drop_first() =~= v@.subrange(i + 1, b as int));
        i = i + 1;
    }
    assert(trim_start_ws(v@.subrange(i as int, b as int)) == v@.subrange(i as int, b as int));
    let mut j = b;
    while j > i && char_is_whitespace(v[j - 1])
        invariant
            a <= i <= j <= b <= v.len(),
            trim_end_ws(v@.subrange(i as int, b as int)) == trim_end_ws(
                v@.subrange(i as int, j as int),
            ),
        decreases j - i,
    {
        assert(v@.subrange(i as int, j as int).drop_last() =~= v@.subrange(i as int, j - 1));
        j = j - 1;
    }
    assert(trim_end_ws(v@.subrange(i as int, j as int)) == v@.subrange(i as int, j as int));
    (i, j)
}

} // verus!

verus! {

/// The characters of an optional owned string.
pub open spec fn opt_view(o: Option<String>) -> Option<Seq<char>> {
    match o {
        Some(s) => Some(s@),
        None => None,
    }
}

/// The characters of an optional borrowed string.
pub open spec fn opt_str_view(o: Option<&str>) -> Option<Seq<char>> {
    match o {
        Some(s) => Some(s@),
        None => None,
    }
}

/// Borrows the string inside an optional owned string.
pub fn opt_as_str(o: &Option<String>) -> (r: Option<&str>)
    ensures
        opt_str_view(r) == opt_view(*o),
{
    match o {
        Some(s) => Some(s.as_str()),
        None => None,
    }
}

/// Copies an optional owned string.
pub fn opt_clone(o: &Option<String>) -> (r: Option<String>)
    ensures
        opt_view(r) == opt_view(*o),
{
    match o {
        Some(s) => Some(s.clone()),
        None => None,
    }
}

} // verus!
