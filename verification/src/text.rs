//! Character-level text handling: splitting a request into words.

use vstd::prelude::*;
use vstd::string::*;

verus! {

/// The pieces of `s` between single spaces, as `str::split(" ")` yields them:
/// consecutive spaces give empty pieces, and there is always at least one piece.
pub open spec fn split_spaces(s: Seq<char>) -> Seq<Seq<char>>
    decreases s.len(),
{
    if s.len() == 0 {
        seq![Seq::<char>::empty()]
    } else if s.last() == ' ' {
        split_spaces(s.drop_last()).push(Seq::<char>::empty())
    } else {
        let pieces = split_spaces(s.drop_last());
        pieces.update(pieces.len() - 1, pieces.last().push(s.last()))
    }
}

/// Splitting always yields at least one piece.
pub proof fn lemma_split_nonempty(s: Seq<char>)
    ensures
        split_spaces(s).len() >= 1,
    decreases s.len(),
{
    if s.len() > 0 {
        lemma_split_nonempty(s.drop_last());
    }
}

/// Splits `s` on single spaces, keeping empty pieces.
pub fn split_on_spaces(s: &str) -> (pieces: Vec<String>)
    ensures
        pieces@.map_values(|p: String| p@) == split_spaces(s@),
{
    let n = s.unicode_len();
    let mut pieces: Vec<String> = Vec::new();
    let mut start: usize = 0;
    let mut i: usize = 0;
    proof {
        assert(s@.take(0) =~= Seq::<char>::empty());
        assert(s@.subrange(0, 0) =~= Seq::<char>::empty());
        assert(pieces@.map_values(|p: String| p@).push(Seq::<char>::empty())
            =~= seq![Seq::<char>::empty()]);
    }
    while i < n
        invariant
            n == s@.len(),
            start <= i <= n,
            pieces@.map_values(|p: String| p@).push(s@.subrange(start as int, i as int))
                == split_spaces(s@.take(i as int)),
        decreases n - i,
    {
        let c = s.get_char(i);
        proof {
            lemma_split_nonempty(s@.take(i as int));
            assert(s@.take(i as int + 1).drop_last() =~= s@.take(i as int));
            assert(s@.take(i as int + 1).last() == c);
        }
        if c == ' ' {
            let piece = s.substring_char(start, i);
            let ghost before = pieces@;
            pieces.push(piece.to_owned());
            proof {
                assert(pieces@.map_values(|p: String| p@)
                    =~= before.map_values(|p: String| p@).push(s@.subrange(start as int, i as int)));
                assert(s@.subrange(i as int + 1, i as int + 1) =~= Seq::<char>::empty());
            }
            start = i + 1;
        } else {
            proof {
                assert(s@.subrange(start as int, i as int).push(c)
                    =~= s@.subrange(start as int, i as int + 1));
            }
        }
        i = i + 1;
    }
    let last = s.substring_char(start, n);
    let ghost before = pieces@;
    pieces.push(last.to_owned());
    proof {
        assert(pieces@.map_values(|p: String| p@)
            =~= before.map_values(|p: String| p@).push(s@.subrange(start as int, n as int)));
        assert(s@.take(n as int) =~= s@);
    }
    pieces
}

/// `c` does not occur in `s`.
pub open spec fn lacks(s: Seq<char>, c: char) -> bool {
    forall|i: int| 0 <= i < s.len() ==> #[trigger] s[i] != c
}

/// The first position at or after `k` where `c` occurs in `s`.
pub open spec fn find_from(s: Seq<char>, c: char, k: int) -> Option<int>
    decreases s.len() - k,
{
    if k < 0 || k >= s.len() {
        None
    } else if s[k] == c {
        Some(k)
    } else {
        find_from(s, c, k + 1)
    }
}

/// The first position where `c` occurs in `s`, as `str::find` gives it.
pub open spec fn find_char(s: Seq<char>, c: char) -> Option<int> {
    find_from(s, c, 0)
}

/// A piece without spaces splits into itself alone.
pub proof fn lemma_split_single(b: Seq<char>)
    requires
        lacks(b, ' '),
    ensures
        split_spaces(b) == seq![b],
    decreases b.len(),
{
    if b.len() > 0 {
        assert(b[b.len() - 1] != ' ');
        lemma_split_single(b.drop_last());
        assert(b.drop_last().push(b.last()) =~= b);
        assert(split_spaces(b) =~= seq![b]);
    } else {
        assert(b =~= Seq::<char>::empty());
    }
}

/// Appending a space and a space-free piece appends that piece to the split.
pub proof fn lemma_split_append(a: Seq<char>, b: Seq<char>)
    requires
        lacks(b, ' '),
    ensures
        split_spaces(a + seq![' '] + b) == split_spaces(a).push(b),
    decreases b.len(),
{
    let s = a + seq![' '] + b;
    if b.len() == 0 {
        assert(s.drop_last() =~= a);
        assert(b =~= Seq::<char>::empty());
    } else {
        assert(b[b.len() - 1] != ' ');
        lemma_split_append(a, b.drop_last());
        assert(s.drop_last() =~= a + seq![' '] + b.drop_last());
        assert(b.drop_last().push(b.last()) =~= b);
        assert(split_spaces(s) =~= split_spaces(a).push(b));
    }
}

/// Splitting a text joined by a space splits each part: the pieces of
/// `a + " " + b` are the pieces of `a` followed by the pieces of `b`.
pub proof fn lemma_split_concat(a: Seq<char>, b: Seq<char>)
    ensures
        split_spaces(a + seq![' '] + b) == split_spaces(a) + split_spaces(b),
    decreases b.len(),
{
    let s = a + seq![' '] + b;
    lemma_split_nonempty(a);
    if b.len() == 0 {
        assert(s.drop_last() =~= a);
        assert(b =~= Seq::<char>::empty());
        assert(split_spaces(a).push(Seq::<char>::empty()) =~= split_spaces(a) + split_spaces(b));
    } else {
        let b1 = b.drop_last();
        lemma_split_concat(a, b1);
        lemma_split_nonempty(b1);
        assert(s.drop_last() =~= a + seq![' '] + b1);
        assert(s.last() == b.last());
        if b.last() == ' ' {
            assert(split_spaces(s) =~= split_spaces(a) + split_spaces(b));
        } else {
            let p = split_spaces(a) + split_spaces(b1);
            let q = split_spaces(b1);
            assert(p.last() == q.last());
            assert(p.update(p.len() - 1, p.last().push(b.last())) =~= split_spaces(a) + q.update(
                q.len() - 1,
                q.last().push(b.last()),
            ));
        }
    }
}

/// Where `a` lacks `c`, the first `c` in `a + [c] + b` stands right after `a`.
pub proof fn lemma_find_after(a: Seq<char>, c: char, b: Seq<char>, k: int)
    requires
        lacks(a, c),
        0 <= k <= a.len(),
    ensures
        find_from(a + seq![c] + b, c, k) == Some(a.len() as int),
    decreases a.len() - k,
{
    let s = a + seq![c] + b;
    if k < a.len() {
        assert(s[k] == a[k]);
        lemma_find_after(a, c, b, k + 1);
    } else {
        assert(s[k] == c);
    }
}

/// The position of the first `c` in `s`, as `str::find` with a one-character
/// pattern gives it (counted in characters).
pub fn find_first(s: &str, c: char) -> (r: Option<usize>)
    ensures
        match r {
            Some(i) => find_char(s@, c) == Some(i as int),
            None => find_char(s@, c) == None::<int>,
        },
{
    let n = s.unicode_len();
    let mut i: usize = 0;
    while i < n
        invariant
            n == s@.len(),
            i <= n,
            find_char(s@, c) == find_from(s@, c, i as int),
        decreases n - i,
    {
        if s.get_char(i) == c {
            return Some(i);
        }
        i = i + 1;
    }
    None
}

/// Whether `a` and `b` hold the same characters.
pub fn same_text(a: &str, b: &str) -> (r: bool)
    ensures
        r == (a@ == b@),
{
    let n = a.unicode_len();
    if n != b.unicode_len() {
        return false;
    }
    let mut i: usize = 0;
    while i < n
        invariant
            n == a@.len(),
            n == b@.len(),
            i <= n,
            forall|j: int| 0 <= j < i ==> a@[j] == b@[j],
        decreases n - i,
    {
        if a.get_char(i) != b.get_char(i) {
            return false;
        }
        i = i + 1;
    }
    assert(a@ =~= b@);
    true
}

} // verus!
