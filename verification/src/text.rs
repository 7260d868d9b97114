//! Character-level utilities: turning strings into character vectors and
//! back, and splitting on field and line separators.
use vstd::prelude::*;

verus! {

/// The views of a sequence of viewable values, element by element.
pub open spec fn seq_views<T: View>(s: Seq<T>) -> Seq<T::V> {
    s.map_values(|x: T| x@)
}

/// Splitting a character sequence on a single separator character.
/// A sequence with no separator yields itself as the only piece, so the
/// result always holds at least one piece.
pub open spec fn spec_split(s: Seq<char>, sep: char) -> Seq<Seq<char>>
    decreases s.len(),
{
    if s.len() == 0 {
        seq![Seq::<char>::empty()]
    } else if s[0] == sep {
        seq![Seq::<char>::empty()].add(spec_split(s.subrange(1, s.len() as int), sep))
    } else {
        let r = spec_split(s.subrange(1, s.len() as int), sep);
        seq![seq![s[0]].add(r[0])].add(r.subrange(1, r.len() as int))
    }
}

pub proof fn lemma_split_len(s: Seq<char>, sep: char)
    ensures
        spec_split(s, sep).len() >= 1,
    decreases s.len(),
{
    if s.len() == 0 {
    } else {
        lemma_split_len(s.subrange(1, s.len() as int), sep);
    }
}

/// True where no character of the sequence is the separator.
pub open spec fn no_sep(s: Seq<char>, sep: char) -> bool {
    forall|i: int| 0 <= i < s.len() ==> s[i] != sep
}

/// A separator-free sequence splits into itself alone.
pub proof fn lemma_split_single(s: Seq<char>, sep: char)
    requires
        no_sep(s, sep),
    ensures
        spec_split(s, sep) == seq![s],
    decreases s.len(),
{
    if s.len() == 0 {
        assert(spec_split(s, sep) =~~= seq![s]);
    } else {
        let tail = s.subrange(1, s.len() as int);
        assert(no_sep(tail, sep));
        lemma_split_single(tail, sep);
        assert(seq![s[0]].add(tail) =~= s);
        assert(spec_split(s, sep) =~~= seq![s]);
    }
}

/// A separator after a separator-free prefix closes exactly one piece.
pub proof fn lemma_split_step(pre: Seq<char>, rest: Seq<char>, sep: char)
    requires
        no_sep(pre, sep),
    ensures
        spec_split(pre.add(seq![sep]).add(rest), sep) == seq![pre].add(spec_split(rest, sep)),
    decreases pre.len(),
{
    let whole = pre.add(seq![sep]).add(rest);
    if pre.len() == 0 {
        assert(whole[0] == sep);
        assert(whole.subrange(1, whole.len() as int) =~= rest);
        assert(spec_split(whole, sep) =~~= seq![pre].add(spec_split(rest, sep)));
    } else {
        let ptail = pre.subrange(1, pre.len() as int);
        assert(no_sep(ptail, sep));
        lemma_split_step(ptail, rest, sep);
        assert(whole[0] == pre[0]);
        assert(whole[0] != sep);
        assert(whole.subrange(1, whole.len() as int) =~= ptail.add(seq![sep]).add(rest));
        let r = spec_split(ptail.add(seq![sep]).add(rest), sep);
        lemma_split_len(rest, sep);
        assert(r[0] == ptail);
        assert(seq![pre[0]].add(ptail) =~= pre);
        assert(r.subrange(1, r.len() as int) =~= spec_split(rest, sep));
        assert(spec_split(whole, sep) =~~= seq![pre].add(spec_split(rest, sep)));
    }
}

/// Splits a character vector on a separator character.
pub fn split_on(s: &Vec<char>, sep: char) -> (r: Vec<Vec<char>>)
    ensures
        seq_views(r@) == spec_split(s@, sep),
        r@.len() >= 1,
{
    let mut done: Vec<Vec<char>> = Vec::new();
    let mut cur: Vec<char> = Vec::new();
    let mut i: usize = 0;
    proof {
        assert(cur@.add(s@.subrange(0, s@.len() as int)) =~= s@);
        assert(seq_views(done@) =~= Seq::<Seq<char>>::empty());
    }
    while i < s.len()
        invariant
            i <= s@.len(),
            no_sep(cur@, sep),
            spec_split(s@, sep) == seq_views(done@).add(
                spec_split(cur@.add(s@.subrange(i as int, s@.len() as int)), sep),
            ),
        decreases s@.len() - i,
    {
        let c = s[i];
        if c == sep {
            proof {
                assert(cur@.add(s@.subrange(i as int, s@.len() as int)) =~= cur@.add(
                    seq![sep],
                ).add(s@.subrange(i as int + 1, s@.len() as int)));
                lemma_split_step(cur@, s@.subrange(i as int + 1, s@.len() as int), sep);
            }
            let ghost old_done = done@;
            let ghost old_cur = cur@;
            done.push(cur);
            cur = Vec::new();
            proof {
                assert(seq_views(done@) =~= seq_views(old_done).push(old_cur));
                assert(cur@.add(s@.subrange(i as int + 1, s@.len() as int)) =~= s@.subrange(
                    i as int + 1,
                    s@.len() as int,
                ));
                assert(spec_split(s@, sep) =~= seq_views(done@).add(
                    spec_split(cur@.add(s@.subrange(i as int + 1, s@.len() as int)), sep),
                ));
            }
        } else {
            let ghost old_cur = cur@;
            cur.push(c);
            proof {
                assert(old_cur.add(s@.subrange(i as int, s@.len() as int)) =~= cur@.add(
                    s@.subrange(i as int + 1, s@.len() as int),
                ));
            }
        }
        i = i + 1;
    }
    proof {
        assert(cur@.add(s@.subrange(i as int, s@.len() as int)) =~= cur@);
        lemma_split_single(cur@, sep);
    }
    let ghost old_done = done@;
    let ghost old_cur = cur@;
    done.push(cur);
    proof {
        assert(seq_views(done@) =~= seq_views(old_done).push(old_cur));
        assert(seq_views(done@) =~= spec_split(s@, sep));
    }
    done
}

/// Splitting a character sequence into lines on the two-character
/// terminator `"\r\n"`. As with [`spec_split`], the result always holds at
/// least one piece.
pub open spec fn spec_lines(s: Seq<char>) -> Seq<Seq<char>>
    decreases s.len(),
{
    if s.len() == 0 {
        seq![Seq::<char>::empty()]
    } else if s.len() >= 2 && s[0] == '\r' && s[1] == '\n' {
        seq![Seq::<char>::empty()].add(spec_lines(s.subrange(2, s.len() as int)))
    } else {
        let r = spec_lines(s.subrange(1, s.len() as int));
        seq![seq![s[0]].add(r[0])].add(r.subrange(1, r.len() as int))
    }
}

pub proof fn lemma_lines_len(s: Seq<char>)
    ensures
        spec_lines(s).len() >= 1,
    decreases s.len(),
{
    if s.len() == 0 {
    } else if s.len() >= 2 && s[0] == '\r' && s[1] == '\n' {
        lemma_lines_len(s.subrange(2, s.len() as int));
    } else {
        lemma_lines_len(s.subrange(1, s.len() as int));
    }
}

/// True where the sequence nowhere holds a carriage return directly
/// followed by a line feed.
pub open spec fn no_crlf(s: Seq<char>) -> bool {
    forall|i: int| 0 <= i < s.len() - 1 ==> !((#[trigger] s[i]) == '\r' && s[i + 1] == '\n')
}

/// A terminator-free sequence is a single line.
pub proof fn lemma_lines_single(s: Seq<char>)
    requires
        no_crlf(s),
    ensures
        spec_lines(s) == seq![s],
    decreases s.len(),
{
    if s.len() == 0 {
        assert(spec_lines(s) =~~= seq![s]);
    } else {
        let tail = s.subrange(1, s.len() as int);
        assert(no_crlf(tail)) by {
            assert(forall|i: int|
                0 <= i < tail.len() - 1 ==> (#[trigger] tail[i]) == s[i + 1] && tail[i + 1] == s[i + 2]);
        }
        lemma_lines_single(tail);
        assert(!(s.len() >= 2 && s[0] == '\r' && s[1] == '\n'));
        assert(seq![s[0]].add(tail) =~= s);
        assert(spec_lines(s) =~~= seq![s]);
    }
}

/// A terminator after a terminator-free prefix closes exactly one line.
pub proof fn lemma_lines_step(pre: Seq<char>, rest: Seq<char>)
    requires
        no_crlf(pre),
    ensures
        spec_lines(pre.add(seq!['\r', '\n']).add(rest)) == seq![pre].add(spec_lines(rest)),
    decreases pre.len(),
{
    let whole = pre.add(seq!['\r', '\n']).add(rest);
    if pre.len() == 0 {
        assert(whole[0] == '\r' && whole[1] == '\n');
        assert(whole.subrange(2, whole.len() as int) =~= rest);
        assert(spec_lines(whole) =~~= seq![pre].add(spec_lines(rest)));
    } else {
        let ptail = pre.subrange(1, pre.len() as int);
        assert(no_crlf(ptail)) by {
            assert(forall|i: int|
                0 <= i < ptail.len() - 1 ==> (#[trigger] ptail[i]) == pre[i + 1] && ptail[i + 1]
                    == pre[i + 2]);
        }
        lemma_lines_step(ptail, rest);
        assert(whole[0] == pre[0]);
        // the head cannot begin a terminator: either the next character is
        // still inside the terminator-free prefix, or the prefix has length
        // one and the next character is the '\r' of the terminator itself
        assert(whole[1] == (if pre.len() >= 2 {
            pre[1]
        } else {
            '\r'
        }));
        assert(!(whole.len() >= 2 && whole[0] == '\r' && whole[1] == '\n'));
        assert(whole.subrange(1, whole.len() as int) =~= ptail.add(seq!['\r', '\n']).add(rest));
        let r = spec_lines(ptail.add(seq!['\r', '\n']).add(rest));
        lemma_lines_len(rest);
        assert(r[0] == ptail);
        assert(seq![pre[0]].add(ptail) =~= pre);
        assert(r.subrange(1, r.len() as int) =~= spec_lines(rest));
        assert(spec_lines(whole) =~~= seq![pre].add(spec_lines(rest)));
    }
}

/// Splits a character vector into lines on the `"\r\n"` terminator.
pub fn split_lines(s: &Vec<char>) -> (r: Vec<Vec<char>>)
    ensures
        seq_views(r@) == spec_lines(s@),
        r@.len() >= 1,
{
    let mut done: Vec<Vec<char>> = Vec::new();
    let mut cur: Vec<char> = Vec::new();
    let mut i: usize = 0;
    proof {
        assert(cur@.add(s@.subrange(0, s@.len() as int)) =~= s@);
        assert(seq_views(done@) =~= Seq::<Seq<char>>::empty());
    }
    while i < s.len()
        invariant
            i <= s@.len(),
            no_crlf(cur@),
            cur@.len() > 0 && cur@.last() == '\r' ==> (i < s@.len() ==> s@[i as int] != '\n'),
            spec_lines(s@) == seq_views(done@).add(
                spec_lines(cur@.add(s@.subrange(i as int, s@.len() as int))),
            ),
        decreases s@.len() - i,
    {
        let c = s[i];
        if c == '\r' && i + 1 < s.len() && s[i + 1] == '\n' {
            proof {
                assert(cur@.add(s@.subrange(i as int, s@.len() as int)) =~= cur@.add(
                    seq!['\r', '\n'],
                ).add(s@.subrange(i as int + 2, s@.len() as int)));
                lemma_lines_step(cur@, s@.subrange(i as int + 2, s@.len() as int));
            }
            let ghost old_done = done@;
            let ghost old_cur = cur@;
            done.push(cur);
            cur = Vec::new();
            proof {
                assert(seq_views(done@) =~= seq_views(old_done).push(old_cur));
                assert(cur@.add(s@.subrange(i as int + 2, s@.len() as int)) =~= s@.subrange(
                    i as int + 2,
                    s@.len() as int,
                ));
                assert(spec_lines(s@) =~= seq_views(done@).add(
                    spec_lines(cur@.add(s@.subrange(i as int + 2, s@.len() as int))),
                ));
            }
            i = i + 2;
        } else {
            let ghost old_cur = cur@;
            cur.push(c);
            proof {
                assert(old_cur.add(s@.subrange(i as int, s@.len() as int)) =~= cur@.add(
                    s@.subrange(i as int + 1, s@.len() as int),
                ));
                assert(no_crlf(cur@)) by {
                    assert(forall|j: int| 0 <= j < old_cur.len() ==> cur@[j] == old_cur[j]);
                }
            }
            i = i + 1;
        }
    }
    proof {
        assert(cur@.add(s@.subrange(i as int, s@.len() as int)) =~= cur@);
        lemma_lines_single(cur@);
    }
    let ghost old_done = done@;
    let ghost old_cur = cur@;
    done.push(cur);
    proof {
        assert(seq_views(done@) =~= seq_views(old_done).push(old_cur));
        assert(seq_views(done@) =~= spec_lines(s@));
    }
    done
}

/// The number of consecutive space characters at the head of a sequence;
/// the nesting depth of an indented line.
pub open spec fn leading_spaces(s: Seq<char>) -> int
    decreases s.len(),
{
    if s.len() == 0 || s[0] != ' ' {
        0
    } else {
        1 + leading_spaces(s.subrange(1, s.len() as int))
    }
}

proof fn lemma_leading_spaces(s: Seq<char>, n: int)
    requires
        0 <= n <= s.len(),
        forall|j: int| 0 <= j < n ==> s[j] == ' ',
        n == s.len() || s[n] != ' ',
    ensures
        leading_spaces(s) == n,
    decreases n,
{
    if n == 0 {
    } else {
        let tail = s.subrange(1, s.len() as int);
        lemma_leading_spaces(tail, n - 1);
    }
}

/// Counts the spaces that open an indented line.
pub fn count_leading_spaces(s: &Vec<char>) -> (n: usize)
    ensures
        n == leading_spaces(s@),
        n <= s@.len(),
{
    let mut i: usize = 0;
    while i < s.len() && s[i] == ' '
        invariant
            i <= s@.len(),
            forall|j: int| 0 <= j < i ==> s@[j] == ' ',
        decreases s@.len() - i,
    {
        i = i + 1;
    }
    proof {
        lemma_leading_spaces(s@, i as int);
    }
    i
}

/// Copies the tail of a character vector from the given position on.
pub fn tail_from(s: &Vec<char>, start: usize) -> (r: Vec<char>)
    requires
        start <= s@.len(),
    ensures
        r@ == s@.subrange(start as int, s@.len() as int),
{
    let mut r: Vec<char> = Vec::new();
    let mut i: usize = start;
    while i < s.len()
        invariant
            start <= i <= s@.len(),
            r@ == s@.subrange(start as int, i as int),
        decreases s@.len() - i,
    {
        let ghost old_r = r@;
        r.push(s[i]);
        i = i + 1;
        proof {
            assert(r@ =~= s@.subrange(start as int, i as int));
        }
    }
    proof {
        assert(r@ =~= s@.subrange(start as int, s@.len() as int));
    }
    r
}

/// The characters of a string, in order, as a vector.
pub fn to_chars(s: &str) -> (r: Vec<char>)
    ensures
        r@ == s@,
{
    let n = s.unicode_len();
    let mut r: Vec<char> = Vec::new();
    let mut i: usize = 0;
    while i < n
        invariant
            n == s@.len(),
            i <= n,
            r@ == s@.subrange(0, i as int),
        decreases n - i,
    {
        r.push(s.get_char(i));
        i = i + 1;
        proof {
            assert(r@ =~= s@.subrange(0, i as int));
        }
    }
    proof {
        assert(r@ =~= s@);
    }
    r
}

/// Relies on String::push: appends one character at the end of the string.
#[verifier::external_body]
fn push_char(s: &mut String, c: char)
    ensures
        final(s)@ == old(s)@.push(c),
{
    s.push(c);
}

/// The string holding exactly the characters of the vector, in order.
pub fn from_chars(v: &Vec<char>) -> (r: String)
    ensures
        r@ == v@,
{
    let mut r = String::new();
    let mut i: usize = 0;
    while i < v.len()
        invariant
            i <= v@.len(),
            r@ == v@.subrange(0, i as int),
        decreases v@.len() - i,
    {
        push_char(&mut r, v[i]);
        i = i + 1;
        proof {
            assert(r@ =~= v@.subrange(0, i as int));
        }
    }
    proof {
        assert(r@ =~= v@);
    }
    r
}

/// The view of the element at a position, seen through [`seq_views`].
pub proof fn lemma_views_index<T: View>(s: Seq<T>, i: int)
    requires
        0 <= i < s.len(),
    ensures
        seq_views(s)[i] == s[i]@,
{
}

/// True where the vector opens with the characters of the string.
pub fn starts_with_str(v: &Vec<char>, s: &str) -> (r: bool)
    ensures
        r == (v@.len() >= s@.len() && v@.subrange(0, s@.len() as int) == s@),
{
    let n = s.unicode_len();
    if v.len() < n {
        return false;
    }
    let mut i: usize = 0;
    while i < n
        invariant
            n == s@.len() <= v@.len(),
            i <= n,
            forall|j: int| 0 <= j < i ==> v@[j] == s@[j],
        decreases n - i,
    {
        if v[i] != s.get_char(i) {
            proof {
                assert(v@.subrange(0, s@.len() as int)[i as int] == v@[i as int]);
            }
            return false;
        }
        i = i + 1;
    }
    proof {
        assert(v@.subrange(0, s@.len() as int) =~= s@);
    }
    true
}

/// True where the characters of the vector are exactly those of the string.
pub fn eq_str(v: &Vec<char>, s: &str) -> (r: bool)
    ensures
        r == (v@ == s@),
{
    let n = s.unicode_len();
    if v.len() != n {
        return false;
    }
    let mut i: usize = 0;
    while i < n
        invariant
            n == s@.len() == v@.len(),
            i <= n,
            forall|j: int| 0 <= j < i ==> v@[j] == s@[j],
        decreases n - i,
    {
        if v[i] != s.get_char(i) {
            return false;
        }
        i = i + 1;
    }
    proof {
        assert(v@ =~= s@);
    }
    true
}

} // verus!
