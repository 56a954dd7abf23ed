//! Character-level helpers over strings, stated over `Seq<char>` views.
use vstd::prelude::*;

verus! {

/// The characters of `s`, in order.
pub fn chars_of(s: &str) -> (out: Vec<char>)
    ensures
        out@ == s@,
{
    let mut out: Vec<char> = Vec::new();
    for c in it: s.chars()
        invariant
            out@ == it.seq().take(it.index()),
            it.seq() == s@,
    {
        out.push(c);
    }
    out
}

/// The characters of `v` from index `from` up to, not including, `to`.
pub fn slice_of(v: &Vec<char>, from: usize, to: usize) -> (out: Vec<char>)
    requires
        from <= to <= v.len(),
    ensures
        out@ == v@.subrange(from as int, to as int),
{
    let mut out: Vec<char> = Vec::new();
    let mut i: usize = from;
    while i < to
        invariant
            from <= i <= to <= v.len(),
            out@ == v@.subrange(from as int, i as int),
        decreases to - i,
    {
        out.push(v[i]);
        i += 1;
    }
    out
}

/// Whether two character sequences are the same.
pub fn same_chars(a: &Vec<char>, b: &Vec<char>) -> (r: bool)
    ensures
        r == (a@ == b@),
{
    if a.len() != b.len() {
        return false;
    }
    let mut i: usize = 0;
    while i < a.len()
        invariant
            i <= a.len(),
            a.len() == b.len(),
            a@.take(i as int) == b@.take(i as int),
        decreases a.len() - i,
    {
        if a[i] != b[i] {
            return false;
        }
        assert(a@.take(i + 1) == a@.take(i as int).push(a@[i as int]));
        assert(b@.take(i + 1) == b@.take(i as int).push(b@[i as int]));
        i += 1;
    }
    assert(a@.take(a.len() as int) == a@);
    assert(b@.take(b.len() as int) == b@);
    true
}

/// Whether `a` and `b` hold the same text.
pub fn str_eq(a: &str, b: &str) -> (r: bool)
    ensures
        r == (a@ == b@),
{
    let av = chars_of(a);
    let bv = chars_of(b);
    same_chars(&av, &bv)
}

/// `c` with an ASCII capital letter replaced by its small letter.
pub open spec fn spec_ascii_lower(c: char) -> char {
    if 'A' <= c && c <= 'Z' {
        ((c as u8) + 32) as char
    } else {
        c
    }
}

/// `s` with every ASCII capital letter replaced by its small letter.
pub open spec fn spec_to_ascii_lowercase(s: Seq<char>) -> Seq<char> {
    Seq::new(s.len(), |i: int| spec_ascii_lower(s[i]))
}

/// Lower-cases one ASCII letter; every other character is returned as it is.
pub fn ascii_lower(c: char) -> (r: char)
    ensures
        r == spec_ascii_lower(c),
{
    if 'A' <= c && c <= 'Z' {
        ((c as u8) + 32) as char
    } else {
        c
    }
}

/// Lower-cases the ASCII letters of `v`.
pub fn to_ascii_lowercase(v: &Vec<char>) -> (out: Vec<char>)
    ensures
        out@ == spec_to_ascii_lowercase(v@),
{
    let mut out: Vec<char> = Vec::new();
    let mut i: usize = 0;
    while i < v.len()
        invariant
            i <= v.len(),
            out@ == spec_to_ascii_lowercase(v@.take(i as int)),
        decreases v.len() - i,
    {
        out.push(ascii_lower(v[i]));
        assert(out@ == spec_to_ascii_lowercase(v@.take(i + 1)));
        i += 1;
    }
    assert(v@.take(v.len() as int) == v@);
    out
}

/// Whether `needle` stands in `hay` at index `at`.
pub open spec fn spec_occurs_at(hay: Seq<char>, needle: Seq<char>, at: int) -> bool {
    &&& 0 <= at
    &&& at + needle.len() <= hay.len()
    &&& hay.subrange(at, at + needle.len()) == needle
}

/// Whether `needle` occurs somewhere in `hay` as a contiguous run.
pub open spec fn spec_contains(hay: Seq<char>, needle: Seq<char>) -> bool {
    exists|at: int| spec_occurs_at(hay, needle, at)
}

/// Whether `s` begins with `prefix`.
pub open spec fn spec_starts_with(s: Seq<char>, prefix: Seq<char>) -> bool {
    spec_occurs_at(s, prefix, 0)
}

/// Tests whether `needle` stands in `hay` at index `at`.
pub fn occurs_at(hay: &Vec<char>, needle: &Vec<char>, at: usize) -> (r: bool)
    ensures
        r == spec_occurs_at(hay@, needle@, at as int),
{
    if at > hay.len() || needle.len() > hay.len() - at {
        return false;
    }
    let mut j: usize = 0;
    while j < needle.len()
        invariant
            j <= needle.len(),
            at + needle.len() <= hay.len(),
            hay@.subrange(at as int, at + j) == needle@.take(j as int),
        decreases needle.len() - j,
    {
        if hay[at + j] != needle[j] {
            assert(hay@.subrange(at as int, at + needle.len())[j as int] != needle@[j as int]);
            return false;
        }
        assert(hay@.subrange(at as int, at + j + 1) == hay@.subrange(at as int, at + j).push(
            hay@[at + j],
        ));
        assert(needle@.take(j + 1) == needle@.take(j as int).push(needle@[j as int]));
        j += 1;
    }
    assert(needle@.take(needle.len() as int) == needle@);
    true
}

/// Tests whether `s` begins with `prefix`.
pub fn starts_with(s: &Vec<char>, prefix: &Vec<char>) -> (r: bool)
    ensures
        r == spec_starts_with(s@, prefix@),
{
    occurs_at(s, prefix, 0)
}

/// Tests whether `needle` occurs somewhere in `hay`.
pub fn contains(hay: &Vec<char>, needle: &Vec<char>) -> (r: bool)
    ensures
        r == spec_contains(hay@, needle@),
{
    if needle.len() > hay.len() {
        return false;
    }
    let last: usize = hay.len() - needle.len();
    let mut at: usize = 0;
    while at < last
        invariant
            at <= last,
            last == hay.len() - needle.len(),
            forall|k: int| 0 <= k < at ==> !spec_occurs_at(hay@, needle@, k),
        decreases last - at,
    {
        if occurs_at(hay, needle, at) {
            return true;
        }
        at += 1;
    }
    occurs_at(hay, needle, last)
}

/// A set of characters that trimming removes from the ends of a text.
#[derive(Clone, Copy, Debug, PartialEq, Eq)]
pub enum CharClass {
    /// Unicode white space, as `str::trim` removes it.
    Whitespace,
    /// The marks around a clock reading: `(`, `)`, `M`, `m`, `h`, `z`.
    ClockMark,
}

/// Whether `c` has the Unicode property White_Space.
pub open spec fn spec_is_whitespace(c: char) -> bool {
    let u = c as u32;
    ||| 0x09 <= u <= 0x0d
    ||| u == 0x20
    ||| u == 0x85
    ||| u == 0xa0
    ||| u == 0x1680
    ||| 0x2000 <= u <= 0x200a
    ||| u == 0x2028
    ||| u == 0x2029
    ||| u == 0x202f
    ||| u == 0x205f
    ||| u == 0x3000
}

/// Whether `c` is one of the marks that decorate a clock reading.
pub open spec fn spec_is_clock_mark(c: char) -> bool {
    c == '(' || c == ')' || c == 'M' || c == 'm' || c == 'h' || c == 'z'
}

impl CharClass {
    /// Whether `c` belongs to the class.
    pub open spec fn spec_holds(self, c: char) -> bool {
        match self {
            CharClass::Whitespace => spec_is_whitespace(c),
            CharClass::ClockMark => spec_is_clock_mark(c),
        }
    }

    /// Tests whether `c` belongs to the class.
    pub fn holds(&self, c: char) -> (r: bool)
        ensures
            r == self.spec_holds(c),
    {
        match self {
            CharClass::Whitespace => {
                let u: u32 = c as u32;
                (0x09 <= u && u <= 0x0d) || u == 0x20 || u == 0x85 || u == 0xa0 || u == 0x1680 || (
                0x2000 <= u && u <= 0x200a) || u == 0x2028 || u == 0x2029 || u == 0x202f || u
                    == 0x205f || u == 0x3000
            },
            CharClass::ClockMark => {
                c == '(' || c == ')' || c == 'M' || c == 'm' || c == 'h' || c == 'z'
            },
        }
    }
}

/// `s` without its longest beginning made of characters of `class`.
pub open spec fn spec_trim_start(s: Seq<char>, class: CharClass) -> Seq<char>
    decreases s.len(),
{
    if s.len() > 0 && class.spec_holds(s[0]) {
        spec_trim_start(s.drop_first(), class)
    } else {
        s
    }
}

/// `s` without its longest ending made of characters of `class`.
pub open spec fn spec_trim_end(s: Seq<char>, class: CharClass) -> Seq<char>
    decreases s.len(),
{
    if s.len() > 0 && class.spec_holds(s.last()) {
        spec_trim_end(s.drop_last(), class)
    } else {
        s
    }
}

/// `s` with the characters of `class` removed from both ends.
pub open spec fn spec_trim(s: Seq<char>, class: CharClass) -> Seq<char> {
    spec_trim_end(spec_trim_start(s, class), class)
}

/// Whether every character of `s` belongs to `class`.
pub open spec fn spec_all_in(s: Seq<char>, class: CharClass) -> bool {
    forall|i: int| 0 <= i < s.len() ==> class.spec_holds(#[trigger] s[i])
}

/// Trimming the beginning removes a run of characters of the class put
/// before a text that does not begin with one.
pub proof fn lemma_trim_start_removes(before: Seq<char>, core: Seq<char>, class: CharClass)
    requires
        spec_all_in(before, class),
        core.len() > 0 ==> !class.spec_holds(core[0]),
    ensures
        spec_trim_start(before + core, class) == core,
    decreases before.len(),
{
    if before.len() == 0 {
        assert(before + core == core);
    } else {
        let whole = before + core;
        assert(whole[0] == before[0]);
        assert(whole.drop_first() == before.drop_first() + core);
        assert forall|i: int| 0 <= i < before.drop_first().len() implies class.spec_holds(
            #[trigger] before.drop_first()[i],
        ) by {
            assert(before.drop_first()[i] == before[i + 1]);
        }
        lemma_trim_start_removes(before.drop_first(), core, class);
    }
}

/// Trimming the end removes a run of characters of the class put after a
/// text that does not end with one.
pub proof fn lemma_trim_end_removes(core: Seq<char>, after: Seq<char>, class: CharClass)
    requires
        spec_all_in(after, class),
        core.len() > 0 ==> !class.spec_holds(core.last()),
    ensures
        spec_trim_end(core + after, class) == core,
    decreases after.len(),
{
    if after.len() == 0 {
        assert(core + after == core);
    } else {
        let whole = core + after;
        assert(whole.last() == after.last());
        assert(whole.drop_last() == core + after.drop_last());
        assert forall|i: int| 0 <= i < after.drop_last().len() implies class.spec_holds(
            #[trigger] after.drop_last()[i],
        ) by {
            assert(after.drop_last()[i] == after[i]);
        }
        lemma_trim_end_removes(core, after.drop_last(), class);
    }
}

/// Trimming gives back a text that neither begins nor ends with a character
/// of the class, whatever characters of the class stand around it.
pub proof fn lemma_trim_removes(
    before: Seq<char>,
    core: Seq<char>,
    after: Seq<char>,
    class: CharClass,
)
    requires
        spec_all_in(before, class),
        spec_all_in(after, class),
        core.len() > 0,
        !class.spec_holds(core[0]),
        !class.spec_holds(core.last()),
    ensures
        spec_trim(before + core + after, class) == core,
{
    assert(before + core + after == before + (core + after));
    assert((core + after)[0] == core[0]);
    lemma_trim_start_removes(before, core + after, class);
    lemma_trim_end_removes(core, after, class);
}

/// What trimming the beginning leaves is the end of the text, and does not
/// begin with a character of the class.
pub proof fn lemma_trim_start_bare(s: Seq<char>, class: CharClass)
    ensures
        spec_trim_start(s, class).len() <= s.len(),
        spec_trim_start(s, class) == s.skip(s.len() - spec_trim_start(s, class).len()),
        spec_all_in(s.take(s.len() - spec_trim_start(s, class).len()), class),
        spec_trim_start(s, class).len() > 0 ==> !class.spec_holds(spec_trim_start(s, class)[0]),
    decreases s.len(),
{
    if s.len() > 0 && class.spec_holds(s[0]) {
        let rest = s.drop_first();
        lemma_trim_start_bare(rest, class);
        let kept = spec_trim_start(rest, class);
        let cut = s.len() - kept.len();
        assert(rest.skip(rest.len() - kept.len()) == s.skip(cut));
        assert forall|i: int| 0 <= i < cut implies class.spec_holds(#[trigger] s.take(cut)[i]) by {
            if i > 0 {
                assert(s.take(cut)[i] == rest.take(cut - 1)[i - 1]);
            }
        }
    } else {
        assert(s.skip(0) == s);
    }
}

/// What trimming the end leaves is the beginning of the text, and does not
/// end with a character of the class.
pub proof fn lemma_trim_end_bare(s: Seq<char>, class: CharClass)
    ensures
        spec_trim_end(s, class).len() <= s.len(),
        spec_trim_end(s, class) == s.take(spec_trim_end(s, class).len() as int),
        spec_all_in(s.skip(spec_trim_end(s, class).len() as int), class),
        spec_trim_end(s, class).len() > 0 ==> !class.spec_holds(spec_trim_end(s, class).last()),
    decreases s.len(),
{
    if s.len() > 0 && class.spec_holds(s.last()) {
        let rest = s.drop_last();
        lemma_trim_end_bare(rest, class);
        let kept = spec_trim_end(rest, class);
        let n = kept.len() as int;
        assert(rest.take(n) == s.take(n));
        assert forall|i: int| 0 <= i < s.len() - n implies class.spec_holds(
            #[trigger] s.skip(n)[i],
        ) by {
            if i < s.len() - n - 1 {
                assert(s.skip(n)[i] == rest.skip(n)[i]);
            }
        }
    } else {
        assert(s.take(s.len() as int) == s);
    }
}

/// What trimming leaves is a run of the text between characters of the
/// class only, and neither begins nor ends with a character of the class.
pub proof fn lemma_trim_bare(s: Seq<char>, class: CharClass)
    ensures
        spec_trim(s, class).len() > 0 ==> !class.spec_holds(spec_trim(s, class)[0])
            && !class.spec_holds(spec_trim(s, class).last()),
        exists|from: int, to: int|
            0 <= from <= to <= s.len() && spec_trim(s, class) == #[trigger] s.subrange(from, to)
                && spec_all_in(s.take(from), class) && spec_all_in(s.skip(to), class),
{
    let front = spec_trim_start(s, class);
    let both = spec_trim_end(front, class);
    lemma_trim_start_bare(s, class);
    lemma_trim_end_bare(front, class);
    let from = s.len() - front.len();
    let to = from + both.len();
    assert(both == s.subrange(from, to));
    if both.len() > 0 {
        assert(both[0] == front[0]);
    }
    assert forall|i: int| 0 <= i < s.len() - to implies class.spec_holds(#[trigger] s.skip(to)[i]) by {
        assert(s.skip(to)[i] == front.skip(both.len() as int)[i]);
    }
}

/// Finds what trimming leaves of the characters of `v` from index `from`
/// up to `to`: the bounds of the run that is left.
pub fn trim_bounds(v: &Vec<char>, from: usize, to: usize, class: CharClass) -> (r: (usize, usize))
    requires
        from <= to <= v.len(),
    ensures
        from <= r.0 <= r.1 <= to,
        v@.subrange(r.0 as int, r.1 as int) == spec_trim(
            v@.subrange(from as int, to as int),
            class,
        ),
{
    let ghost whole = v@.subrange(from as int, to as int);
    let mut a: usize = from;
    while a < to && class.holds(v[a])
        invariant
            from <= a <= to <= v.len(),
            spec_trim_start(whole, class) == spec_trim_start(
                v@.subrange(a as int, to as int),
                class,
            ),
        decreases to - a,
    {
        assert(v@.subrange(a as int, to as int)[0] == v@[a as int]);
        assert(v@.subrange(a as int, to as int).drop_first() == v@.subrange(a + 1, to as int));
        a += 1;
    }
    let ghost kept = v@.subrange(a as int, to as int);
    assert(spec_trim_start(whole, class) == kept) by {
        if a < to {
            assert(kept[0] == v@[a as int]);
        }
    }
    let mut b: usize = to;
    while b > a && class.holds(v[b - 1])
        invariant
            a <= b <= to <= v.len(),
            kept == v@.subrange(a as int, to as int),
            spec_trim_end(kept, class) == spec_trim_end(v@.subrange(a as int, b as int), class),
        decreases b - a,
    {
        assert(v@.subrange(a as int, b as int).last() == v@[b - 1]);
        assert(v@.subrange(a as int, b as int).drop_last() == v@.subrange(a as int, b - 1));
        b -= 1;
    }
    assert(spec_trim_end(kept, class) == v@.subrange(a as int, b as int)) by {
        if b > a {
            assert(v@.subrange(a as int, b as int).last() == v@[b - 1]);
        }
    }
    (a, b)
}

/// Removes the characters of `class` from both ends of `v`.
pub fn trim(v: &Vec<char>, class: CharClass) -> (out: Vec<char>)
    ensures
        out@ == spec_trim(v@, class),
{
    assert(v@.subrange(0, v.len() as int) == v@);
    let (from, to) = trim_bounds(v, 0, v.len(), class);
    slice_of(v, from, to)
}

/// The pieces of `s` between occurrences of `sep`: one piece more than there
/// are separators, each piece possibly empty.
pub open spec fn spec_split(s: Seq<char>, sep: char) -> Seq<Seq<char>>
    decreases s.len(),
{
    if s.len() == 0 {
        seq![Seq::<char>::empty()]
    } else {
        let before = spec_split(s.drop_last(), sep);
        if s.last() == sep {
            before.push(Seq::<char>::empty())
        } else {
            before.drop_last().push(before.last().push(s.last()))
        }
    }
}

/// The pieces put together again, with `sep` between one and the next.
pub open spec fn spec_join(pieces: Seq<Seq<char>>, sep: char) -> Seq<char>
    decreases pieces.len(),
{
    if pieces.len() == 0 {
        Seq::empty()
    } else if pieces.len() == 1 {
        pieces[0]
    } else {
        spec_join(pieces.drop_last(), sep).push(sep) + pieces.last()
    }
}

/// Splitting gives at least one piece, no piece holds the separator, and the
/// pieces joined by the separator are the text that was split.
pub proof fn lemma_split_joins_back(s: Seq<char>, sep: char)
    ensures
        spec_split(s, sep).len() >= 1,
        forall|i: int, j: int|
            0 <= i < spec_split(s, sep).len() && 0 <= j < spec_split(s, sep)[i].len()
                ==> #[trigger] spec_split(s, sep)[i][j] != sep,
        spec_join(spec_split(s, sep), sep) == s,
    decreases s.len(),
{
    let pieces = spec_split(s, sep);
    if s.len() == 0 {
        assert(pieces[0] == Seq::<char>::empty());
    } else {
        let before = spec_split(s.drop_last(), sep);
        lemma_split_joins_back(s.drop_last(), sep);
        if s.last() == sep {
            assert(pieces.drop_last() == before);
            assert(spec_join(pieces, sep) == spec_join(before, sep).push(sep) + Seq::<
                char,
            >::empty());
            assert(s.drop_last().push(sep) == s);
            assert forall|i: int, j: int|
                0 <= i < pieces.len() && 0 <= j < pieces[i].len() implies #[trigger] pieces[i][j]
                != sep by {
                assert(pieces[i] == before[i]);
            }
        } else {
            let grown = before.last().push(s.last());
            assert(pieces.last() == grown);
            assert(pieces.drop_last() == before.drop_last());
            if before.len() == 1 {
                assert(before.last() == before[0]);
                assert(pieces[0] == grown);
            } else {
                assert(spec_join(before, sep) == spec_join(before.drop_last(), sep).push(sep)
                    + before.last());
                assert(spec_join(before.drop_last(), sep).push(sep) + grown == (spec_join(
                    before.drop_last(),
                    sep,
                ).push(sep) + before.last()).push(s.last()));
            }
            assert(s.drop_last().push(s.last()) == s);
            assert forall|i: int, j: int|
                0 <= i < pieces.len() && 0 <= j < pieces[i].len() implies #[trigger] pieces[i][j]
                != sep by {
                if i < pieces.len() - 1 {
                    assert(pieces[i] == before[i]);
                } else if j < before.last().len() {
                    assert(pieces[i][j] == before[before.len() - 1][j]);
                }
            }
        }
    }
}

/// The runs of `s` that `bounds` mark, each from its first index up to, not
/// including, its second.
pub open spec fn spec_runs(s: Seq<char>, bounds: Seq<(usize, usize)>) -> Seq<Seq<char>> {
    Seq::new(bounds.len(), |i: int| s.subrange(bounds[i].0 as int, bounds[i].1 as int))
}

/// Whether every pair of `bounds` marks a run of a text of `len` characters.
pub open spec fn spec_bounds_within(bounds: Seq<(usize, usize)>, len: int) -> bool {
    forall|i: int| 0 <= i < bounds.len() ==> (#[trigger] bounds[i]).0 <= bounds[i].1 <= len
}

/// Finds the pieces of `v` between occurrences of `sep`: the bounds of each
/// piece, in order.
pub fn split_bounds(v: &Vec<char>, sep: char) -> (out: Vec<(usize, usize)>)
    ensures
        spec_bounds_within(out@, v.len() as int),
        spec_runs(v@, out@) == spec_split(v@, sep),
{
    let mut done: Vec<(usize, usize)> = Vec::new();
    let mut start: usize = 0;
    let mut i: usize = 0;
    assert(v@.take(0) == Seq::<char>::empty());
    assert(spec_runs(v@, done@).push(v@.subrange(0, 0)) == seq![Seq::<char>::empty()]);
    while i < v.len()
        invariant
            start <= i <= v.len(),
            spec_bounds_within(done@, i as int),
            spec_runs(v@, done@).push(v@.subrange(start as int, i as int)) == spec_split(
                v@.take(i as int),
                sep,
            ),
        decreases v.len() - i,
    {
        let ghost before = spec_split(v@.take(i as int), sep);
        let ghost upto = v@.take(i + 1);
        let ghost runs = spec_runs(v@, done@);
        assert(upto.drop_last() == v@.take(i as int));
        assert(upto.last() == v@[i as int]);
        assert(before.last() == v@.subrange(start as int, i as int));
        assert(before.drop_last() == runs);
        if v[i] == sep {
            done.push((start, i));
            assert(spec_runs(v@, done@) == before);
            start = i + 1;
            assert(v@.subrange(start as int, i + 1) == Seq::<char>::empty());
        } else {
            assert(v@.subrange(start as int, i + 1) == v@.subrange(start as int, i as int).push(
                v@[i as int],
            ));
        }
        i += 1;
    }
    assert(v@.take(v.len() as int) == v@);
    let ghost runs = spec_runs(v@, done@);
    done.push((start, i));
    assert(spec_runs(v@, done@) == runs.push(v@.subrange(start as int, i as int)));
    done
}

} // verus!
