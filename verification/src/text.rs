//! Character-level text handling with exact specifications: splitting,
//! lines, trimming, prefixes and substring search over `Seq<char>`.

use vstd::prelude::*;
use vstd::string::*;

verus! {

/// What separates the pieces when a piece of text is split.
#[derive(Clone, Copy)]
pub enum Sep {
    /// One given character.
    Char(char),
    /// Any Unicode white-space character.
    White,
}

/// Unicode `White_Space`, the property behind `char::is_whitespace`.
pub open spec fn is_white_space(c: char) -> bool {
    let n = c as u32;
    ||| 0x09 <= n <= 0x0d
    ||| n == 0x20
    ||| n == 0x85
    ||| n == 0xa0
    ||| n == 0x1680
    ||| 0x2000 <= n <= 0x200a
    ||| n == 0x2028
    ||| n == 0x2029
    ||| n == 0x202f
    ||| n == 0x205f
    ||| n == 0x3000
}

pub open spec fn matches_sep(sep: Sep, c: char) -> bool {
    match sep {
        Sep::Char(d) => c == d,
        Sep::White => is_white_space(c),
    }
}

/// The pieces between separators, as `str::split` yields them: one more
/// piece than there are separators, empty pieces included.
pub open spec fn split_where(s: Seq<char>, sep: Sep) -> Seq<Seq<char>>
    decreases s.len(),
{
    if s.len() == 0 {
        seq![Seq::empty()]
    } else {
        let prev = split_where(s.drop_last(), sep);
        if matches_sep(sep, s.last()) {
            prev.push(Seq::empty())
        } else {
            prev.update(prev.len() - 1, prev.last().push(s.last()))
        }
    }
}

pub proof fn lemma_split_nonempty(s: Seq<char>, sep: Sep)
    ensures
        split_where(s, sep).len() >= 1,
    decreases s.len(),
{
    if s.len() > 0 {
        lemma_split_nonempty(s.drop_last(), sep);
    }
}

/// Text without separators is a single piece.
pub proof fn lemma_split_single(x: Seq<char>, sep: Sep)
    requires
        forall|i: int| 0 <= i < x.len() ==> !matches_sep(sep, #[trigger] x[i]),
    ensures
        split_where(x, sep) == seq![x],
    decreases x.len(),
{
    if x.len() == 0 {
        assert(x =~= Seq::<char>::empty());
        assert(split_where(x, sep) =~= seq![x]);
    } else {
        let y = x.drop_last();
        assert forall|i: int| 0 <= i < y.len() implies !matches_sep(sep, #[trigger] y[i]) by {
            assert(y[i] == x[i]);
        }
        lemma_split_single(y, sep);
        assert(!matches_sep(sep, x[x.len() - 1]));
        assert(y.push(x.last()) =~= x);
        assert(seq![y].last() == y);
        assert(split_where(x, sep) == seq![y].update(0, y.push(x.last())));
        assert(seq![y].update(0, x) =~= seq![x]);
    }
}

/// Splitting at a separator splits the text before it and the text after
/// it apart.
pub proof fn lemma_split_concat(x: Seq<char>, c: char, y: Seq<char>, sep: Sep)
    requires
        matches_sep(sep, c),
    ensures
        split_where(x + seq![c] + y, sep) == split_where(x, sep) + split_where(y, sep),
    decreases y.len(),
{
    let s = x + seq![c] + y;
    if y.len() == 0 {
        assert(s.drop_last() =~= x);
        assert(split_where(y, sep) =~= seq![Seq::<char>::empty()]);
        assert(split_where(s, sep) =~= split_where(x, sep) + split_where(y, sep));
    } else {
        let y2 = y.drop_last();
        lemma_split_concat(x, c, y2, sep);
        lemma_split_nonempty(y2, sep);
        assert(s.drop_last() =~= x + seq![c] + y2);
        assert(s.last() == y.last());
        let a = split_where(x, sep);
        let b = split_where(y2, sep);
        if matches_sep(sep, y.last()) {
            assert((a + b).push(Seq::empty()) =~= a + b.push(Seq::empty()));
        } else {
            assert((a + b).update((a + b).len() - 1, (a + b).last().push(y.last())) =~= a + b.update(
                b.len() - 1,
                b.last().push(y.last()),
            ));
        }
        assert(split_where(s, sep) =~= split_where(x, sep) + split_where(y, sep));
    }
}

/// Whether `c` is white space (`char::is_whitespace`).
pub fn is_white(c: char) -> (b: bool)
    ensures
        b == is_white_space(c),
{
    let n = c as u32;
    (0x09 <= n && n <= 0x0d) || n == 0x20 || n == 0x85 || n == 0xa0 || n == 0x1680 || (0x2000
        <= n && n <= 0x200a) || n == 0x2028 || n == 0x2029 || n == 0x202f || n == 0x205f || n
        == 0x3000
}

fn sep_matches(sep: Sep, c: char) -> (b: bool)
    ensures
        b == matches_sep(sep, c),
{
    match sep {
        Sep::Char(d) => c == d,
        Sep::White => is_white(c),
    }
}

/// The characters of `s`, in order.
pub fn chars_of(s: &str) -> (v: Vec<char>)
    ensures
        v@ == s@,
{
    let n = s.unicode_len();
    let mut v: Vec<char> = Vec::new();
    let mut i: usize = 0;
    while i < n
        invariant
            n == s@.len(),
            i <= n,
            v@ == s@.subrange(0, i as int),
        decreases n - i,
    {
        let c = s.get_char(i);
        v.push(c);
        i = i + 1;
        assert(v@ =~= s@.subrange(0, i as int));
    }
    assert(v@ =~= s@);
    v
}

/// The ranges of the pieces of `text[lo..hi]` split at `sep`.
pub fn split_ranges(text: &Vec<char>, lo: usize, hi: usize, sep: Sep) -> (r: Vec<(usize, usize)>)
    requires
        lo <= hi <= text.len(),
    ensures
        r@.len() == split_where(text@.subrange(lo as int, hi as int), sep).len(),
        r@.len() >= 1,
        r@[0].0 == lo,
        r@[r@.len() - 1].1 == hi,
        forall|k: int|
            0 <= k < r@.len() ==> lo <= (#[trigger] r@[k]).0 <= r@[k].1 <= hi && text@.subrange(
                r@[k].0 as int,
                r@[k].1 as int,
            ) == split_where(text@.subrange(lo as int, hi as int), sep)[k],
        forall|k: int| 0 < k < r@.len() ==> (#[trigger] r@[k]).0 == r@[k - 1].1 + 1,
{
    let mut r: Vec<(usize, usize)> = Vec::new();
    let mut start: usize = lo;
    let mut i: usize = lo;
    assert(text@.subrange(lo as int, lo as int) =~= Seq::<char>::empty());
    while i < hi
        invariant
            lo <= start <= i <= hi <= text.len(),
            split_where(text@.subrange(lo as int, i as int), sep).len() == r@.len() + 1,
            r@.len() == 0 ==> start == lo,
            r@.len() > 0 ==> r@[0].0 == lo && start == r@[r@.len() - 1].1 + 1,
            forall|k: int|
                0 <= k < r@.len() ==> lo <= (#[trigger] r@[k]).0 <= r@[k].1 < start && text@.subrange(
                    r@[k].0 as int,
                    r@[k].1 as int,
                ) == split_where(text@.subrange(lo as int, i as int), sep)[k],
            forall|k: int| 0 < k < r@.len() ==> (#[trigger] r@[k]).0 == r@[k - 1].1 + 1,
            text@.subrange(start as int, i as int) == split_where(
                text@.subrange(lo as int, i as int),
                sep,
            )[r@.len() as int],
        decreases hi - i,
    {
        let c = text[i];
        let ghost sub = text@.subrange(lo as int, i as int);
        let ghost sub1 = text@.subrange(lo as int, i + 1);
        assert(sub1.drop_last() =~= sub);
        assert(sub1.last() == c);
        if sep_matches(sep, c) {
            r.push((start, i));
            start = i + 1;
            assert(text@.subrange(start as int, i + 1) =~= Seq::<char>::empty());
        } else {
            assert(text@.subrange(start as int, i + 1) =~= text@.subrange(start as int, i as int).push(c));
        }
        i = i + 1;
    }
    r.push((start, hi));
    r
}


/// A line's terminating carriage return, if any, removed.
pub open spec fn strip_cr(l: Seq<char>) -> Seq<char> {
    if l.len() > 0 && l.last() == '\r' {
        l.drop_last()
    } else {
        l
    }
}

/// The lines of `s` as `str::lines` yields them: split at `'\n'`, a
/// `'\r'` just before a `'\n'` dropped, and no empty line after a final
/// `'\n'`.
pub open spec fn lines_of(s: Seq<char>) -> Seq<Seq<char>> {
    let p = split_where(s, Sep::Char('\n'));
    let ended = Seq::new((p.len() - 1) as nat, |i: int| strip_cr(p[i]));
    if p.last().len() == 0 {
        ended
    } else {
        ended.push(p.last())
    }
}

/// The ranges of the lines of `text`.
pub fn line_ranges(text: &Vec<char>) -> (r: Vec<(usize, usize)>)
    ensures
        r@.len() == lines_of(text@).len(),
        forall|k: int|
            0 <= k < r@.len() ==> (#[trigger] r@[k]).0 <= r@[k].1 <= text.len() && text@.subrange(
                r@[k].0 as int,
                r@[k].1 as int,
            ) == lines_of(text@)[k],
{
    let pieces = split_ranges(text, 0, text.len(), Sep::Char('\n'));
    let ghost p = split_where(text@, Sep::Char('\n'));
    assert(text@.subrange(0, text.len() as int) =~= text@);
    let n = pieces.len();
    let mut r: Vec<(usize, usize)> = Vec::new();
    let mut k: usize = 0;
    while k + 1 < n
        invariant
            n == pieces@.len(),
            n == p.len(),
            n >= 1,
            k + 1 <= n,
            r@.len() == k,
            p == split_where(text@, Sep::Char('\n')),
            forall|j: int|
                0 <= j < n ==> (#[trigger] pieces@[j]).0 <= pieces@[j].1 <= text.len()
                    && text@.subrange(pieces@[j].0 as int, pieces@[j].1 as int) == p[j],
            forall|j: int|
                0 <= j < k ==> (#[trigger] r@[j]).0 <= r@[j].1 <= text.len() && text@.subrange(
                    r@[j].0 as int,
                    r@[j].1 as int,
                ) == strip_cr(p[j]),
        decreases n - k,
    {
        let (a, b) = pieces[k];
        assert(text@.subrange(a as int, b as int) == p[k as int]);
        if b > a && text[b - 1] == '\r' {
            assert(text@.subrange(a as int, b - 1) =~= p[k as int].drop_last());
            r.push((a, b - 1));
        } else {
            r.push((a, b));
        }
        k = k + 1;
    }
    let (a, b) = pieces[n - 1];
    assert(text@.subrange(a as int, b as int) == p.last());
    let ghost ended = Seq::new((p.len() - 1) as nat, |i: int| strip_cr(p[i]));
    if b > a {
        r.push((a, b));
        assert forall|j: int| 0 <= j < r@.len() implies text@.subrange(
            (#[trigger] r@[j]).0 as int,
            r@[j].1 as int,
        ) == lines_of(text@)[j] by {
            if j < n - 1 {
                assert(lines_of(text@)[j] == ended[j]);
            }
        }
    } else {
        assert forall|j: int| 0 <= j < r@.len() implies text@.subrange(
            (#[trigger] r@[j]).0 as int,
            r@[j].1 as int,
        ) == lines_of(text@)[j] by {
            assert(lines_of(text@)[j] == ended[j]);
        }
    }
    r
}

/// `s` without its leading white space (`str::trim_start`).
pub open spec fn trim_start(s: Seq<char>) -> Seq<char>
    decreases s.len(),
{
    if s.len() > 0 && is_white_space(s[0]) {
        trim_start(s.drop_first())
    } else {
        s
    }
}

/// `s` without its trailing white space (`str::trim_end`).
pub open spec fn trim_end(s: Seq<char>) -> Seq<char>
    decreases s.len(),
{
    if s.len() > 0 && is_white_space(s.last()) {
        trim_end(s.drop_last())
    } else {
        s
    }
}

/// `s` without leading and trailing white space (`str::trim`).
pub open spec fn trim(s: Seq<char>) -> Seq<char> {
    trim_end(trim_start(s))
}

/// The range of `text[lo..hi]` once trimmed.
pub fn trim_range(text: &Vec<char>, lo: usize, hi: usize) -> (r: (usize, usize))
    requires
        lo <= hi <= text.len(),
    ensures
        lo <= r.0 <= r.1 <= hi,
        text@.subrange(r.0 as int, r.1 as int) == trim(text@.subrange(lo as int, hi as int)),
{
    let mut a = lo;
    while a < hi && is_white(text[a])
        invariant
            lo <= a <= hi <= text.len(),
            trim_start(text@.subrange(lo as int, hi as int)) == trim_start(
                text@.subrange(a as int, hi as int),
            ),
        decreases hi - a,
    {
        assert(text@.subrange(a as int, hi as int).drop_first() =~= text@.subrange(
            a + 1,
            hi as int,
        ));
        a = a + 1;
    }
    let mut b = hi;
    while b > a && is_white(text[b - 1])
        invariant
            lo <= a <= b <= hi <= text.len(),
            trim_end(text@.subrange(a as int, hi as int)) == trim_end(
                text@.subrange(a as int, b as int),
            ),
        decreases b - a,
    {
        assert(text@.subrange(a as int, b as int).drop_last() =~= text@.subrange(
            a as int,
            b - 1,
        ));
        b = b - 1;
    }
    (a, b)
}

/// Whether `s` begins with `p` (`str::starts_with`).
pub open spec fn has_prefix(s: Seq<char>, p: Seq<char>) -> bool {
    p.len() <= s.len() && s.subrange(0, p.len() as int) == p
}

/// Whether `p` occurs in `s` (`str::contains`).
pub open spec fn contains_seq(s: Seq<char>, p: Seq<char>) -> bool {
    exists|i: int| 0 <= i && i + p.len() <= s.len() && #[trigger] s.subrange(i, i + p.len()) == p
}

/// Whether `text[at..at + p.len()]` equals `p`.
fn matches_at(text: &Vec<char>, at: usize, hi: usize, p: &Vec<char>) -> (b: bool)
    requires
        at <= hi <= text.len(),
    ensures
        b == (at + p.len() <= hi && text@.subrange(at as int, at + p.len()) == p@),
{
    if p.len() > hi - at {
        return false;
    }
    let mut j: usize = 0;
    while j < p.len()
        invariant
            at + p.len() <= hi <= text.len(),
            j <= p.len(),
            text@.subrange(at as int, at + j) == p@.subrange(0, j as int),
        decreases p.len() - j,
    {
        if text[at + j] != p[j] {
            assert(text@.subrange(at as int, at + p.len())[j as int] != p@[j as int]);
            return false;
        }
        assert(text@.subrange(at as int, at + j + 1) =~= text@.subrange(at as int, at + j).push(
            text@[at + j],
        ));
        assert(p@.subrange(0, j + 1) =~= p@.subrange(0, j as int).push(p@[j as int]));
        j = j + 1;
    }
    assert(p@.subrange(0, p.len() as int) =~= p@);
    true
}

/// Whether `text[lo..hi]` begins with `p`.
pub fn starts_with_at(text: &Vec<char>, lo: usize, hi: usize, p: &Vec<char>) -> (b: bool)
    requires
        lo <= hi <= text.len(),
    ensures
        b == has_prefix(text@.subrange(lo as int, hi as int), p@),
{
    let b = matches_at(text, lo, hi, p);
    assert(b ==> text@.subrange(lo as int, hi as int).subrange(0, p.len() as int) =~= text@.subrange(
        lo as int,
        lo + p.len(),
    ));
    if p.len() <= hi - lo {
        assert(text@.subrange(lo as int, hi as int).subrange(0, p.len() as int) =~= text@.subrange(
            lo as int,
            lo + p.len(),
        ));
    }
    b
}

/// Whether `text[lo..hi]` equals `p`.
pub fn equals_at(text: &Vec<char>, lo: usize, hi: usize, p: &Vec<char>) -> (b: bool)
    requires
        lo <= hi <= text.len(),
    ensures
        b == (text@.subrange(lo as int, hi as int) == p@),
{
    if hi - lo != p.len() {
        assert(text@.subrange(lo as int, hi as int).len() != p@.len());
        return false;
    }
    matches_at(text, lo, hi, p)
}

/// Whether `p` occurs in `text[lo..hi]`.
pub fn contains_at(text: &Vec<char>, lo: usize, hi: usize, p: &Vec<char>) -> (b: bool)
    requires
        lo <= hi <= text.len(),
    ensures
        b == contains_seq(text@.subrange(lo as int, hi as int), p@),
{
    let ghost s = text@.subrange(lo as int, hi as int);
    let mut at = lo;
    while p.len() <= hi - at
        invariant
            lo <= at <= hi <= text.len(),
            s == text@.subrange(lo as int, hi as int),
            forall|i: int|
                0 <= i < at - lo && i + p.len() <= s.len() ==> #[trigger] s.subrange(
                    i,
                    i + p.len(),
                ) != p@,
        decreases hi - at,
    {
        assert(s.subrange(at - lo, at - lo + p.len()) =~= text@.subrange(at as int, at + p.len()));
        if matches_at(text, at, hi, p) {
            return true;
        }
        if at == hi {
            assert(text@.subrange(at as int, at + p.len()) =~= p@);
        }
        at = at + 1;
    }
    false
}


/// The characters `from..to` of `s`, as a new string.
pub fn substring(s: &str, from: usize, to: usize) -> (r: String)
    requires
        from <= to <= s@.len(),
    ensures
        r@ == s@.subrange(from as int, to as int),
{
    s.substring_char(from, to).to_owned()
}

/// The non-empty pieces of `ps`, in order.
pub open spec fn nonempty(ps: Seq<Seq<char>>) -> Seq<Seq<char>>
    decreases ps.len(),
{
    if ps.len() == 0 {
        ps
    } else {
        let sub = nonempty(ps.drop_last());
        if ps.last().len() > 0 {
            sub.push(ps.last())
        } else {
            sub
        }
    }
}

/// The words of `s`, as `str::split_whitespace` yields them.
pub open spec fn words_of(s: Seq<char>) -> Seq<Seq<char>> {
    nonempty(split_where(s, Sep::White))
}

/// Keeping the non-empty pieces of two lists of pieces one after the other
/// keeps those of each.
pub proof fn lemma_nonempty_concat(a: Seq<Seq<char>>, b: Seq<Seq<char>>)
    ensures
        nonempty(a + b) == nonempty(a) + nonempty(b),
    decreases b.len(),
{
    if b.len() == 0 {
        assert(a + b =~= a);
        assert(nonempty(a) + nonempty(b) =~= nonempty(a));
    } else {
        lemma_nonempty_concat(a, b.drop_last());
        assert((a + b).drop_last() =~= a + b.drop_last());
        assert((a + b).last() == b.last());
        if b.last().len() > 0 {
            assert((nonempty(a) + nonempty(b.drop_last())).push(b.last()) =~= nonempty(a) + nonempty(
                b.drop_last(),
            ).push(b.last()));
        }
    }
}

/// The lines of a text are its first line, without a carriage return at
/// its end, then the lines of the rest; text with no line feed is one line,
/// or none when empty.
pub proof fn law_lines_split_at_line_feeds(a: Seq<char>, b: Seq<char>)
    requires
        forall|i: int| 0 <= i < a.len() ==> #[trigger] a[i] != '\n',
    ensures
        lines_of(a + seq!['\n'] + b) == seq![strip_cr(a)] + lines_of(b),
        lines_of(a) == if a.len() == 0 {
            Seq::<Seq<char>>::empty()
        } else {
            seq![a]
        },
{
    let nl = Sep::Char('\n');
    lemma_split_single(a, nl);
    lemma_split_concat(a, '\n', b, nl);
    lemma_split_nonempty(b, nl);
    let p = split_where(b, nl);
    let q = split_where(a + seq!['\n'] + b, nl);
    assert(q == seq![a] + p);
    assert(q.last() == p.last());
    let eb = Seq::new((p.len() - 1) as nat, |i: int| strip_cr(p[i]));
    let eq = Seq::new((q.len() - 1) as nat, |i: int| strip_cr(q[i]));
    assert(eq =~= seq![strip_cr(a)] + eb);
    if p.last().len() > 0 {
        assert(eq.push(q.last()) =~= seq![strip_cr(a)] + eb.push(p.last()));
    }
    let ea = Seq::new((seq![a].len() - 1) as nat, |i: int| strip_cr(seq![a][i]));
    assert(ea =~= Seq::<Seq<char>>::empty());
    if a.len() > 0 {
        assert(ea.push(a) =~= seq![a]);
    }
}

/// The range of the second word of `text[lo..hi]`, if it has two words.
pub fn second_word(text: &Vec<char>, lo: usize, hi: usize) -> (r: Option<(usize, usize)>)
    requires
        lo <= hi <= text.len(),
    ensures
        match r {
            Some((a, b)) => words_of(text@.subrange(lo as int, hi as int)).len() >= 2 && a <= b
                <= text.len() && text@.subrange(a as int, b as int) == words_of(
                text@.subrange(lo as int, hi as int),
            )[1],
            None => words_of(text@.subrange(lo as int, hi as int)).len() < 2,
        },
{
    let pieces = split_ranges(text, lo, hi, Sep::White);
    let ghost p = split_where(text@.subrange(lo as int, hi as int), Sep::White);
    let mut count: usize = 0;
    let mut found: Option<(usize, usize)> = None;
    let mut k: usize = 0;
    while k < pieces.len()
        invariant
            pieces@.len() == p.len(),
            k <= pieces@.len(),
            count <= k,
            forall|j: int|
                0 <= j < pieces@.len() ==> lo <= (#[trigger] pieces@[j]).0 <= pieces@[j].1 <= hi
                    && text@.subrange(pieces@[j].0 as int, pieces@[j].1 as int) == p[j],
            hi <= text.len(),
            count == nonempty(p.take(k as int)).len(),
            count >= 2 <==> found is Some,
            found matches Some((a, b)) ==> a <= b <= text.len() && text@.subrange(a as int, b as int)
                == nonempty(p.take(k as int))[1],
        decreases pieces.len() - k,
    {
        assert(p.take(k + 1).drop_last() =~= p.take(k as int));
        let (a, b) = pieces[k];
        if b > a {
            if count == 1 {
                found = Some((a, b));
            }
            count = count + 1;
        }
        k = k + 1;
    }
    assert(p.take(pieces.len() as int) =~= p);
    found
}

} // verus!
