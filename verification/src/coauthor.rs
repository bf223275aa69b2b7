//! Co-author trailers in commit messages.

use vstd::prelude::*;

use crate::actor::actor_string;
use crate::text::{
    chars_of, is_whitespace, lemma_split_pieces_concat, lemma_split_pieces_single, split_pieces, substring, trim_end_ws,
    trim_start_ws, trim_ws, trim_ws_bounds,
};

verus! {

/// The text that starts a co-author trailer line.
pub open spec fn trailer_prefix() -> Seq<char> {
    seq!['C', 'o', '-', 'a', 'u', 't', 'h', 'o', 'r', 'e', 'd', '-', 'b', 'y', ':', ' ']
}

/// Whether `line` is a co-author trailer, `Co-authored-by: <name> <<email>>`:
/// the prefix, then any text, then ` <`, then any text, and `>` to end the line.
/// (The line grammar of the pattern `(?m)^Co-authored-by: (.*) <(.*?)>$`.)
pub open spec fn is_trailer_line(line: Seq<char>) -> bool {
    let p = trailer_prefix();
    &&& line.len() >= p.len()
    &&& line.subrange(0, p.len() as int) == p
    &&& line.last() == '>'
    &&& exists|k: int|
        #![trigger line[k], line[k + 1]]
        p.len() <= k && k + 2 < line.len() && line[k] == ' ' && line[k + 1] == '<'
}

/// What a trailer line names: the line without `Co-authored-by:`, trimmed.
pub open spec fn trailer_entry(line: Seq<char>) -> Seq<char> {
    trim_ws(line.skip(15))
}

/// The entries of the trailer lines among `lines`, in order; a co-author named
/// twice is listed twice.
pub open spec fn trailer_entries(lines: Seq<Seq<char>>) -> Seq<Seq<char>>
    decreases lines.len(),
{
    if lines.len() == 0 {
        Seq::empty()
    } else {
        let before = trailer_entries(lines.drop_last());
        if is_trailer_line(lines.last()) {
            before.push(trailer_entry(lines.last()))
        } else {
            before
        }
    }
}

/// The co-authors that a message lists, each as `name <email>`.
pub open spec fn co_author_entries(message: Seq<char>) -> Seq<Seq<char>> {
    trailer_entries(split_pieces(message, '\n'))
}

/// A message that is one trailer, `Co-authored-by: name <email>`, lists
/// exactly that co-author, in the `name <email>` form (provided the name starts
/// with something other than whitespace and neither part breaks the line).
pub proof fn lemma_single_trailer(name: Seq<char>, email: Seq<char>)
    requires
        name.len() > 0,
        !is_whitespace(name[0]),
        !name.contains('\n'),
        !email.contains('\n'),
    ensures
        co_author_entries(trailer_prefix() + actor_string(name, email)) == seq![
            actor_string(name, email),
        ],
{
    let a = actor_string(name, email);
    let line = trailer_prefix() + a;
    assert(!line.contains('\n')) by {
        if line.contains('\n') {
            let k = choose|k: int| 0 <= k < line.len() && line[k] == '\n';
            if k >= 16 + name.len() + 2 && k < 16 + name.len() + 2 + email.len() {
                assert(email[k - 16 - name.len() - 2] == '\n');
            } else if k >= 16 && k < 16 + name.len() {
                assert(name[k - 16] == '\n');
            }
        }
    }
    lemma_split_pieces_single(line, '\n');
    assert(line.subrange(0, 16) =~= trailer_prefix());
    let k: int = 16 + name.len() as int;
    assert(line[k] == ' ' && line[k + 1] == '<');
    assert(is_trailer_line(line));
    assert(seq![line].drop_last() =~= Seq::<Seq<char>>::empty());
    let rest = line.skip(15);
    assert(rest.drop_first() =~= a);
    assert(is_whitespace(rest[0]));
    assert(trim_start_ws(rest) == trim_start_ws(a));
    assert(a[0] == name[0]);
    assert(trim_start_ws(a) == a);
    assert(trim_end_ws(a) == a);
    assert(trailer_entry(line) == a);
    assert(seq![line].last() == line);
    assert(trailer_entries(Seq::<Seq<char>>::empty()) == Seq::<Seq<char>>::empty());
    assert(trailer_entries(seq![line]) == Seq::<Seq<char>>::empty().push(a));
    assert(Seq::<Seq<char>>::empty().push(a) =~= seq![a]);
}

/// The trailer entries of two runs of lines are those of the first run
/// followed by those of the second.
proof fn lemma_trailer_entries_concat(xs: Seq<Seq<char>>, ys: Seq<Seq<char>>)
    ensures
        trailer_entries(xs + ys) == trailer_entries(xs) + trailer_entries(ys),
    decreases ys.len(),
{
    if ys.len() == 0 {
        assert(xs + ys =~= xs);
        assert(trailer_entries(xs) + Seq::<Seq<char>>::empty() =~= trailer_entries(xs));
    } else {
        lemma_trailer_entries_concat(xs, ys.drop_last());
        assert((xs + ys).drop_last() =~= xs + ys.drop_last());
        assert((xs + ys).last() == ys.last());
        let a = trailer_entries(xs);
        let b = trailer_entries(ys.drop_last());
        if is_trailer_line(ys.last()) {
            assert((a + b).push(trailer_entry(ys.last())) =~= a + b.push(trailer_entry(ys.last())));
        }
    }
}

/// Co-authors are not de-duplicated: a message that gives the same trailer on
/// two lines lists that co-author twice.
pub proof fn lemma_repeated_trailer(name: Seq<char>, email: Seq<char>)
    requires
        name.len() > 0,
        !is_whitespace(name[0]),
        !name.contains('\n'),
        !email.contains('\n'),
    ensures
        ({
            let line = trailer_prefix() + actor_string(name, email);
            co_author_entries(line.push('\n') + line) == seq![
                actor_string(name, email),
                actor_string(name, email),
            ]
        }),
{
    let line = trailer_prefix() + actor_string(name, email);
    lemma_single_trailer(name, email);
    lemma_split_pieces_concat(line, line, '\n');
    lemma_trailer_entries_concat(split_pieces(line, '\n'), split_pieces(line, '\n'));
    assert(seq![actor_string(name, email)] + seq![actor_string(name, email)] =~= seq![
        actor_string(name, email),
        actor_string(name, email),
    ]);
}

/// Decides whether `v[start..end]` is a co-author trailer line.
fn line_is_trailer(v: &Vec<char>, start: usize, end: usize) -> (r: bool)
    requires
        start <= end <= v.len(),
    ensures
        r == is_trailer_line(v@.subrange(start as int, end as int)),
{
    let ghost line = v@.subrange(start as int, end as int);
    let prefix: Vec<char> = vec![
        'C',
        'o',
        '-',
        'a',
        'u',
        't',
        'h',
        'o',
        'r',
        'e',
        'd',
        '-',
        'b',
        'y',
        ':',
        ' ',
    ];
    assert(prefix@ =~= trailer_prefix());
    let n = prefix.len();
    if end - start < n {
        return false;
    }
    let mut i: usize = 0;
    while i < n
        invariant
            n == prefix.len(),
            prefix@ == trailer_prefix(),
            start + n <= end <= v.len(),
            line == v@.subrange(start as int, end as int),
            i <= n,
            forall|j: int| 0 <= j < i ==> line[j] == prefix@[j],
        decreases n - i,
    {
        if v[start + i] != prefix[i] {
            assert(line.subrange(0, n as int)[i as int] != trailer_prefix()[i as int]);
            return false;
        }
        i = i + 1;
    }
    assert(line.subrange(0, n as int) =~= trailer_prefix());
    if v[end - 1] != '>' {
        return false;
    }
    let mut k = start + n;
    while end - k > 2
        invariant
            n == 16,
            start + n <= k <= end,
            end <= v.len(),
            line == v@.subrange(start as int, end as int),
            line.len() >= 16,
            line.subrange(0, 16) == trailer_prefix(),
            line.last() == '>',
            forall|m: int|
                #![trigger line[m], line[m + 1]]
                n <= m < k - start ==> !(line[m] == ' ' && line[m + 1] == '<'),
        decreases end - k,
    {
        if v[k] == ' ' && v[k + 1] == '<' {
            assert(line[k - start] == ' ' && line[k - start + 1] == '<');
            return true;
        }
        k = k + 1;
    }
    assert forall|m: int|
        #![trigger line[m], line[m + 1]]
        n <= m && m + 2 < line.len() implies !(line[m] == ' ' && line[m + 1] == '<') by {}
    false
}

/// Iterate all co-author trailers in the haystack, each formatted as
/// "Name <Email>".
pub fn iter_co_authors(haystack: &str) -> (r: Vec<String>)
    ensures
        r@.map_values(|p: String| p@) == co_author_entries(haystack@),
{
    let chars = chars_of(haystack);
    let ghost mut done: Seq<Seq<char>> = Seq::empty();
    let mut r: Vec<String> = Vec::new();
    let mut start: usize = 0;
    let mut i: usize = 0;
    assert(haystack@.take(0) =~= Seq::<char>::empty());
    assert(done.push(haystack@.subrange(0, 0)) =~= seq![Seq::<char>::empty()]);
    assert(r@.map_values(|p: String| p@) =~= Seq::<Seq<char>>::empty());
    while i < chars.len()
        invariant
            chars@ == haystack@,
            start <= i <= chars.len(),
            done.push(haystack@.subrange(start as int, i as int)) == split_pieces(
                haystack@.take(i as int),
                '\n',
            ),
            r@.map_values(|p: String| p@) == trailer_entries(done),
        decreases chars.len() - i,
    {
        assert(haystack@.take(i + 1).drop_last() =~= haystack@.take(i as int));
        if chars[i] == '\n' {
            let ghost line = haystack@.subrange(start as int, i as int);
            let ghost before = r@.map_values(|p: String| p@);
            if line_is_trailer(&chars, start, i) {
                let (a, b) = trim_ws_bounds(&chars, start + 15, i);
                assert(chars@.subrange(start + 15, i as int) =~= line.skip(15));
                r.push(substring(haystack, a, b));
                assert(r@.map_values(|p: String| p@) =~= before.push(trailer_entry(line)));
            }
            proof {
                assert(done.push(line).drop_last() =~= done);
                done = done.push(line);
            }
            start = i + 1;
            assert(haystack@.subrange(start as int, (i + 1) as int) =~= Seq::<char>::empty());
        } else {
            assert(haystack@.subrange(start as int, (i + 1) as int) =~= haystack@.subrange(
                start as int,
                i as int,
            ).push(chars@[i as int]));
        }
        i = i + 1;
    }
    assert(haystack@.take(chars.len() as int) =~= haystack@);
    let ghost line = haystack@.subrange(start as int, chars.len() as int);
    let ghost all = done.push(line);
    assert(all.drop_last() =~= done);
    let ghost before = r@.map_values(|p: String| p@);
    if line_is_trailer(&chars, start, chars.len()) {
        let (a, b) = trim_ws_bounds(&chars, start + 15, chars.len());
        assert(chars@.subrange(start + 15, chars.len() as int) =~= line.skip(15));
        r.push(substring(haystack, a, b));
        assert(r@.map_values(|p: String| p@) =~= before.push(trailer_entry(line)));
    }
    r
}

} // verus!
