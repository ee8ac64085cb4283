//! Text as sequences of characters.
//!
//! Every name, type expression and path of the documentation model is a
//! `String`; its meaning in a contract is its view, a `Seq<char>`. This module
//! gives the vocabulary the other modules state their contracts in (prefixes,
//! occurrences, replacement, splitting, joining, trimming) together with
//! executable functions proved against it.

use vstd::prelude::*;
use vstd::string::StringExecFns;

verus! {

/// `pat` stands at the very start of `s`.
pub open spec fn has_prefix(s: Seq<char>, pat: Seq<char>) -> bool {
    pat.len() <= s.len() && s.take(pat.len() as int) == pat
}

/// `pat` stands in `s` at position `i`.
pub open spec fn occurs_at(s: Seq<char>, i: int, pat: Seq<char>) -> bool {
    0 <= i <= s.len() && has_prefix(s.skip(i), pat)
}

/// `pat` stands somewhere in `s`.
pub open spec fn occurs_in(s: Seq<char>, pat: Seq<char>) -> bool {
    exists|i: int| occurs_at(s, i, pat)
}

/// `s` with every occurrence of `from` replaced by `to`, occurrences taken
/// from the left and never overlapping. An empty `from` replaces nothing.
pub open spec fn replaced(s: Seq<char>, from: Seq<char>, to: Seq<char>) -> Seq<char>
    decreases s.len(),
{
    if from.len() == 0 || s.len() < from.len() {
        s
    } else if has_prefix(s, from) {
        to + replaced(s.skip(from.len() as int), from, to)
    } else {
        seq![s[0]] + replaced(s.skip(1), from, to)
    }
}

/// `s` without the copies of `pat` that it begins with. An empty `pat`
/// removes nothing.
pub open spec fn without_leading(s: Seq<char>, pat: Seq<char>) -> Seq<char>
    decreases s.len(),
{
    if pat.len() > 0 && has_prefix(s, pat) {
        without_leading(s.skip(pat.len() as int), pat)
    } else {
        s
    }
}

/// The pieces of `s` between the occurrences of `sep`, occurrences taken from
/// the left and never overlapping. There is always at least one piece; an
/// empty `sep` splits nothing.
pub open spec fn split_on(s: Seq<char>, sep: Seq<char>) -> Seq<Seq<char>>
    decreases s.len(),
{
    if sep.len() == 0 || s.len() < sep.len() {
        seq![s]
    } else if has_prefix(s, sep) {
        seq![Seq::<char>::empty()] + split_on(s.skip(sep.len() as int), sep)
    } else {
        let rest = split_on(s.skip(1), sep);
        seq![seq![s[0]] + rest[0]] + rest.skip(1)
    }
}

/// The pieces put together again with `sep` between each two neighbours.
pub open spec fn joined(parts: Seq<Seq<char>>, sep: Seq<char>) -> Seq<char>
    decreases parts.len(),
{
    if parts.len() == 0 {
        Seq::<char>::empty()
    } else if parts.len() == 1 {
        parts[0]
    } else {
        joined(parts.drop_last(), sep) + sep + parts.last()
    }
}

/// The classes of characters that trimming removes.
#[derive(Clone, Copy, Debug, PartialEq, Eq)]
pub enum CharClass {
    /// What decorates a C++ type name: `&`, `*` and the space.
    Decoration,
    /// White space as Unicode defines it.
    Whitespace,
}

/// The characters with the Unicode property `White_Space`.
pub open spec fn is_whitespace(c: char) -> bool {
    let n = c as u32;
    ||| 0x09 <= n <= 0x0d
    ||| n == 0x20
    ||| n == 0x85
    ||| n == 0xa0
    ||| n == 0x1680
    ||| 0x2000 <= n <= 0x200a
    ||| n == 0x2028
    ||| n == 0x2029
    ||| n == 0x202f
    ||| n == 0x205f
    ||| n == 0x3000
}

/// `&`, `*` and the space.
pub open spec fn is_decoration(c: char) -> bool {
    c == '&' || c == ' ' || c == '*'
}

impl CharClass {
    /// Whether `c` belongs to the class.
    pub open spec fn holds(self, c: char) -> bool {
        match self {
            CharClass::Decoration => is_decoration(c),
            CharClass::Whitespace => is_whitespace(c),
        }
    }

    /// Tests one character against the class.
    pub fn test(self, c: char) -> (r: bool)
        ensures
            r == self.holds(c),
    {
        match self {
            CharClass::Decoration => c == '&' || c == ' ' || c == '*',
            CharClass::Whitespace => {
                let n: u32 = c as u32;
                (0x09 <= n && n <= 0x0d) || n == 0x20 || n == 0x85 || n == 0xa0 || n == 0x1680
                    || (0x2000 <= n && n <= 0x200a) || n == 0x2028 || n == 0x2029 || n == 0x202f
                    || n == 0x205f || n == 0x3000
            },
        }
    }
}

/// `s` without the characters of `class` that it begins with.
pub open spec fn trimmed_start(s: Seq<char>, class: CharClass) -> Seq<char>
    decreases s.len(),
{
    if s.len() > 0 && class.holds(s[0]) {
        trimmed_start(s.skip(1), class)
    } else {
        s
    }
}

/// `s` without the characters of `class` that it ends with.
pub open spec fn trimmed_end(s: Seq<char>, class: CharClass) -> Seq<char>
    decreases s.len(),
{
    if s.len() > 0 && class.holds(s.last()) {
        trimmed_end(s.drop_last(), class)
    } else {
        s
    }
}

/// `s` without the characters of `class` at either end.
pub open spec fn trimmed(s: Seq<char>, class: CharClass) -> Seq<char> {
    trimmed_end(trimmed_start(s, class), class)
}

/// Appends one character to a string. This is `String::push` of the standard
/// library, taken on trust: the string afterwards is the string before
/// followed by `c`.
#[verifier::external_body]
pub(crate) fn push_char(s: &mut String, c: char)
    ensures
        final(s)@ == old(s)@.push(c),
{
    s.push(c);
}

/// The characters of a string, in order.
pub fn chars_of(s: &str) -> (v: Vec<char>)
    ensures
        v@ == s@,
{
    let mut v: Vec<char> = Vec::new();
    for c in it: s.chars()
        invariant
            v@ == it.seq().take(it.index() as int),
            it.seq() == s@,
    {
        v.push(c);
    }
    v
}

/// The string made of the characters `v[from..to]`; the bounds are clipped to
/// the length of `v`.
pub fn string_of_range(v: &Vec<char>, from: usize, to: usize) -> (s: String)
    ensures
        from <= to <= v@.len() ==> s@ == v@.subrange(from as int, to as int),
        to > v@.len() && from <= v@.len() ==> s@ == v@.skip(from as int),
        from > to || from > v@.len() ==> s@ == Seq::<char>::empty(),
{
    let end: usize = if to < v.len() { to } else { v.len() };
    let mut s = String::new();
    let mut i: usize = from;
    while i < end
        invariant
            end <= v@.len(),
            from <= i,
            i <= end || (i == from && s@ == Seq::<char>::empty()),
            i <= end ==> s@ == v@.subrange(from as int, i as int),
        decreases end - i,
    {
        push_char(&mut s, v[i]);
        i = i + 1;
    }
    s
}

/// The string made of the characters of `v`.
pub fn string_of(v: &Vec<char>) -> (s: String)
    ensures
        s@ == v@,
{
    let s = string_of_range(v, 0, v.len());
    assert(v@.subrange(0, v@.len() as int) =~= v@);
    s
}

/// A string of its own with the characters of `s`.
pub fn owned(s: &str) -> (r: String)
    ensures
        r@ == s@,
{
    s.to_owned()
}

/// Whether two strings hold the same characters.
pub fn same_text(a: &str, b: &str) -> (r: bool)
    ensures
        r == (a@ == b@),
{
    let x = chars_of(a);
    let y = chars_of(b);
    if x.len() != y.len() {
        return false;
    }
    let mut i: usize = 0;
    while i < x.len()
        invariant
            x@ == a@,
            y@ == b@,
            x@.len() == y@.len(),
            i <= x@.len(),
            forall|j: int| 0 <= j < i ==> x@[j] == y@[j],
        decreases x@.len() - i,
    {
        if x[i] != y[i] {
            assert(a@[i as int] != b@[i as int]);
            return false;
        }
        i = i + 1;
    }
    assert(x@ =~= y@);
    true
}

/// Whether `pat` stands in `s` at position `i`.
pub fn matches_at(s: &Vec<char>, i: usize, pat: &Vec<char>) -> (r: bool)
    ensures
        r == occurs_at(s@, i as int, pat@),
{
    if i > s.len() || pat.len() > s.len() - i {
        return false;
    }
    let mut j: usize = 0;
    while j < pat.len()
        invariant
            i <= s@.len() <= usize::MAX,
            pat@.len() <= s@.len() - i,
            j <= pat@.len(),
            forall|k: int| 0 <= k < j ==> s@[i + k] == pat@[k],
        decreases pat@.len() - j,
    {
        if s[i + j] != pat[j] {
            assert(s@.skip(i as int).take(pat@.len() as int)[j as int] != pat@[j as int]);
            return false;
        }
        j = j + 1;
    }
    assert(s@.skip(i as int).take(pat@.len() as int) =~= pat@);
    true
}

/// The first position at or after `from` where `pat` stands in `s`.
pub fn find_from(s: &Vec<char>, pat: &Vec<char>, from: usize) -> (r: Option<usize>)
    ensures
        match r {
            Some(i) => from <= i && occurs_at(s@, i as int, pat@) && forall|j: int|
                from <= j < i ==> !occurs_at(s@, j, pat@),
            None => forall|j: int| from <= j ==> !occurs_at(s@, j, pat@),
        },
{
    if from > s.len() {
        return None;
    }
    let mut i: usize = from;
    loop
        invariant
            from <= i <= s@.len(),
            forall|j: int| from <= j < i ==> !occurs_at(s@, j, pat@),
        decreases s@.len() - i,
    {
        if matches_at(s, i, pat) {
            return Some(i);
        }
        if i == s.len() {
            return None;
        }
        i = i + 1;
    }
}

/// Whether `s` begins with `pat`.
pub fn starts_with(s: &str, pat: &str) -> (r: bool)
    ensures
        r == has_prefix(s@, pat@),
{
    let v = chars_of(s);
    let p = chars_of(pat);
    let r = matches_at(&v, 0, &p);
    assert(v@.skip(0) =~= v@);
    r
}

/// Whether `pat` stands somewhere in `s`.
pub fn contains(s: &str, pat: &str) -> (r: bool)
    ensures
        r == occurs_in(s@, pat@),
{
    let v = chars_of(s);
    let p = chars_of(pat);
    find_from(&v, &p, 0).is_some()
}

/// The views of a sequence of strings.
pub open spec fn texts(v: Seq<String>) -> Seq<Seq<char>> {
    Seq::new(v.len(), |i: int| v[i]@)
}

/// Splitting always yields at least one piece.
pub proof fn lemma_split_nonempty(s: Seq<char>, sep: Seq<char>)
    ensures
        split_on(s, sep).len() >= 1,
    decreases s.len(),
{
    if sep.len() == 0 || s.len() < sep.len() {
    } else if has_prefix(s, sep) {
        lemma_split_nonempty(s.skip(sep.len() as int), sep);
    } else {
        lemma_split_nonempty(s.skip(1), sep);
    }
}

/// Appends the characters `src[from..to]` to `out`.
fn push_range(out: &mut Vec<char>, src: &Vec<char>, from: usize, to: usize)
    requires
        from <= to <= src@.len(),
    ensures
        final(out)@ == old(out)@ + src@.subrange(from as int, to as int),
{
    let mut i: usize = from;
    while i < to
        invariant
            from <= i <= to <= src@.len(),
            out@ == old(out)@ + src@.subrange(from as int, i as int),
        decreases to - i,
    {
        out.push(src[i]);
        i = i + 1;
        assert(out@ =~= old(out)@ + src@.subrange(from as int, i as int));
    }
}

/// `s` with every occurrence of `from` replaced by `to`.
pub fn replace_chars(s: &Vec<char>, from: &Vec<char>, to: &Vec<char>) -> (r: Vec<char>)
    ensures
        r@ == replaced(s@, from@, to@),
{
    let mut out: Vec<char> = Vec::new();
    let mut i: usize = 0;
    if from.len() > 0 {
        assert(s@.skip(0) =~= s@);
        while i < s.len() && from.len() <= s.len() - i
            invariant
                i <= s@.len(),
                from@.len() > 0,
                replaced(s@, from@, to@) == out@ + replaced(s@.skip(i as int), from@, to@),
            decreases s@.len() - i,
        {
            let ghost rest = s@.skip(i as int);
            if matches_at(s, i, from) {
                let ghost before = out@;
                push_range(&mut out, to, 0, to.len());
                proof {
                    assert(to@.subrange(0, to@.len() as int) =~= to@);
                    assert(rest.skip(from@.len() as int) =~= s@.skip(i + from@.len()));
                    assert(before + (to@ + replaced(s@.skip(i + from@.len()), from@, to@)) =~= (
                    before + to@) + replaced(s@.skip(i + from@.len()), from@, to@));
                }
                i = i + from.len();
            } else {
                let ghost before = out@;
                out.push(s[i]);
                proof {
                    assert(rest.skip(1) =~= s@.skip(i + 1));
                    assert(before + (seq![rest[0]] + replaced(s@.skip(i + 1), from@, to@)) =~= (
                    before.push(s@[i as int])) + replaced(s@.skip(i + 1), from@, to@));
                }
                i = i + 1;
            }
        }
    }
    let ghost before = out@;
    push_range(&mut out, s, i, s.len());
    proof {
        assert(s@.subrange(i as int, s@.len() as int) =~= s@.skip(i as int));
        if from@.len() == 0 {
            assert(s@.skip(0) =~= s@);
            assert(out@ =~= s@);
        }
    }
    out
}

/// The position where `s` goes on once the copies of `pat` that it begins
/// with are taken away.
pub fn leading_end(s: &Vec<char>, pat: &Vec<char>) -> (r: usize)
    ensures
        r <= s@.len(),
        without_leading(s@, pat@) == s@.skip(r as int),
{
    let mut i: usize = 0;
    assert(s@.skip(0) =~= s@);
    if pat.len() == 0 || s.len() == 0 {
        return 0;
    }
    while matches_at(s, i, pat)
        invariant
            i <= s@.len() <= usize::MAX,
            pat@.len() > 0,
            without_leading(s@, pat@) == without_leading(s@.skip(i as int), pat@),
        decreases s@.len() - i,
    {
        assert(s@.skip(i as int).skip(pat@.len() as int) =~= s@.skip(i + pat@.len()));
        assert(pat@.len() <= s@.skip(i as int).len());
        i = i + pat.len();
    }
    i
}

/// The bounds of `s` without the characters of `class` at either end.
pub fn trim_bounds(s: &Vec<char>, class: CharClass) -> (r: (usize, usize))
    ensures
        r.0 <= r.1 <= s@.len(),
        trimmed(s@, class) == s@.subrange(r.0 as int, r.1 as int),
{
    let mut lo: usize = 0;
    assert(s@.skip(0) =~= s@);
    while lo < s.len() && class.test(s[lo])
        invariant
            lo <= s@.len(),
            trimmed_start(s@, class) == trimmed_start(s@.skip(lo as int), class),
        decreases s@.len() - lo,
    {
        assert(s@.skip(lo as int).skip(1) =~= s@.skip(lo + 1));
        lo = lo + 1;
    }
    assert(trimmed_start(s@, class) == s@.skip(lo as int));
    let mut hi: usize = s.len();
    assert(s@.skip(lo as int) =~= s@.subrange(lo as int, hi as int));
    while hi > lo && class.test(s[hi - 1])
        invariant
            lo <= hi <= s@.len(),
            trimmed(s@, class) == trimmed_end(s@.subrange(lo as int, hi as int), class),
        decreases hi,
    {
        assert(s@.subrange(lo as int, hi as int).drop_last() =~= s@.subrange(
            lo as int,
            hi - 1,
        ));
        hi = hi - 1;
    }
    (lo, hi)
}

/// What the pieces found so far, the piece under way and the pieces of the
/// text still to come add up to.
pub open spec fn pieces_with(
    done: Seq<Seq<char>>,
    current: Seq<char>,
    rest: Seq<Seq<char>>,
) -> Seq<Seq<char>> {
    done + seq![current + rest[0]] + rest.skip(1)
}

/// The pieces of `s` between the occurrences of `sep`.
pub fn split_chars(s: &Vec<char>, sep: &Vec<char>) -> (r: Vec<String>)
    ensures
        texts(r@) == split_on(s@, sep@),
{
    let mut done: Vec<String> = Vec::new();
    let mut start: usize = 0;
    let mut i: usize = 0;
    proof {
        assert(s@.skip(0) =~= s@);
        lemma_split_nonempty(s@, sep@);
        assert(pieces_with(texts(done@), s@.subrange(0, 0), split_on(s@, sep@)) =~= split_on(
            s@,
            sep@,
        ));
    }
    if sep.len() > 0 {
        while i < s.len() && sep.len() <= s.len() - i
            invariant
                start <= i <= s@.len(),
                sep@.len() > 0,
                split_on(s@, sep@) == pieces_with(
                    texts(done@),
                    s@.subrange(start as int, i as int),
                    split_on(s@.skip(i as int), sep@),
                ),
            decreases s@.len() - i,
        {
            let ghost rest = s@.skip(i as int);
            let ghost before = texts(done@);
            let ghost current = s@.subrange(start as int, i as int);
            if matches_at(s, i, sep) {
                let piece = string_of_range(s, start, i);
                done.push(piece);
                proof {
                    let next = split_on(s@.skip(i + sep@.len()), sep@);
                    lemma_split_nonempty(s@.skip(i + sep@.len()), sep@);
                    assert(rest.skip(sep@.len() as int) =~= s@.skip(i + sep@.len()));
                    assert(texts(done@) =~= before.push(current));
                    assert(s@.subrange(i + sep@.len(), i + sep@.len()) =~= Seq::<char>::empty());
                    assert(pieces_with(before, current, seq![Seq::<char>::empty()] + next)
                        =~= pieces_with(before.push(current), Seq::<char>::empty(), next));
                }
                i = i + sep.len();
                start = i;
            } else {
                proof {
                    let next = split_on(s@.skip(i + 1), sep@);
                    assert(rest.skip(1) =~= s@.skip(i + 1));
                    assert(s@.subrange(start as int, i + 1) =~= current.push(s@[i as int]));
                    assert(current + (seq![rest[0]] + next[0]) =~= current.push(s@[i as int])
                        + next[0]);
                    assert(pieces_with(
                        before,
                        current,
                        seq![seq![rest[0]] + next[0]] + next.skip(1),
                    ) =~= pieces_with(before, current.push(s@[i as int]), next));
                }
                i = i + 1;
            }
        }
    }
    let ghost before = texts(done@);
    let last = string_of_range(s, start, s.len());
    done.push(last);
    proof {
        assert(texts(done@) =~= before.push(s@.subrange(start as int, s@.len() as int)));
        assert(s@.subrange(start as int, i as int) + s@.skip(i as int) =~= s@.subrange(
            start as int,
            s@.len() as int,
        ));
        assert(pieces_with(
            before,
            s@.subrange(start as int, i as int),
            seq![s@.skip(i as int)],
        ) =~= before.push(s@.subrange(start as int, s@.len() as int)));
    }
    done
}

/// `s` with every occurrence of `from` replaced by `to`.
pub fn replace(s: &str, from: &str, to: &str) -> (r: String)
    ensures
        r@ == replaced(s@, from@, to@),
{
    let out = replace_chars(&chars_of(s), &chars_of(from), &chars_of(to));
    string_of(&out)
}

/// `s` without the copies of `pat` that it begins with.
pub fn strip_leading(s: &str, pat: &str) -> (r: String)
    ensures
        r@ == without_leading(s@, pat@),
{
    let v = chars_of(s);
    let from = leading_end(&v, &chars_of(pat));
    string_of_range(&v, from, v.len())
}

/// `s` without the characters of `class` at either end.
pub fn trim(s: &str, class: CharClass) -> (r: String)
    ensures
        r@ == trimmed(s@, class),
{
    let v = chars_of(s);
    let (lo, hi) = trim_bounds(&v, class);
    string_of_range(&v, lo, hi)
}

/// The pieces of `s` between the occurrences of `sep`.
pub fn split(s: &str, sep: &str) -> (r: Vec<String>)
    ensures
        texts(r@) == split_on(s@, sep@),
{
    split_chars(&chars_of(s), &chars_of(sep))
}

/// The first `count` strings of `parts` put together with `sep` between each
/// two neighbours; `count` is clipped to the number of parts.
pub fn join_first(parts: &Vec<String>, count: usize, sep: &str) -> (r: String)
    ensures
        count <= parts@.len() ==> r@ == joined(texts(parts@).take(count as int), sep@),
        count > parts@.len() ==> r@ == joined(texts(parts@), sep@),
{
    let n: usize = if count < parts.len() { count } else { parts.len() };
    let mut out = String::new();
    let mut k: usize = 0;
    while k < n
        invariant
            k <= n <= parts@.len(),
            out@ == joined(texts(parts@).take(k as int), sep@),
        decreases n - k,
    {
        let ghost head = texts(parts@).take(k + 1);
        if k > 0 {
            out.append(sep);
        }
        out.append(parts[k].as_str());
        proof {
            assert(head.drop_last() =~= texts(parts@).take(k as int));
            assert(head.last() == parts@[k as int]@);
            if k == 0 {
                assert(out@ =~= head[0]);
            }
        }
        k = k + 1;
    }
    assert(texts(parts@).take(parts@.len() as int) =~= texts(parts@));
    out
}

/// The strings of `parts` put together with `sep` between each two
/// neighbours.
pub fn join(parts: &Vec<String>, sep: &str) -> (r: String)
    ensures
        r@ == joined(texts(parts@), sep@),
{
    assert(texts(parts@).take(parts@.len() as int) =~= texts(parts@));
    join_first(parts, parts.len(), sep)
}

/// The position of the first `c` in `s`, or the length of `s` where `s`
/// holds no `c`.
pub open spec fn position_of(s: Seq<char>, c: char) -> int
    decreases s.len(),
{
    if s.len() == 0 || s[0] == c {
        0
    } else {
        1 + position_of(s.skip(1), c)
    }
}

/// What follows the last `c` in `s`; all of `s` where `s` holds no `c`.
pub open spec fn after_last(s: Seq<char>, c: char) -> Seq<char>
    decreases s.len(),
{
    if s.len() == 0 || s.last() == c {
        Seq::<char>::empty()
    } else {
        after_last(s.drop_last(), c).push(s.last())
    }
}

/// The first `c` stands where no `c` stands before it.
pub proof fn lemma_position_of(s: Seq<char>, c: char, p: int)
    requires
        0 <= p <= s.len(),
        forall|j: int| 0 <= j < p ==> s[j] != c,
        p < s.len() ==> s[p] == c,
    ensures
        position_of(s, c) == p,
    decreases p,
{
    if p > 0 {
        lemma_position_of(s.skip(1), c, p - 1);
    }
}

/// What follows the last `c` begins where no `c` stands after.
pub proof fn lemma_after_last(s: Seq<char>, c: char, p: int)
    requires
        0 <= p <= s.len(),
        forall|j: int| p <= j < s.len() ==> s[j] != c,
        p > 0 ==> s[p - 1] == c,
    ensures
        after_last(s, c) == s.skip(p),
    decreases s.len() - p,
{
    if p < s.len() {
        lemma_after_last(s.drop_last(), c, p);
        assert(s.drop_last().skip(p).push(s.last()) =~= s.skip(p));
    } else {
        assert(s.skip(p) =~= Seq::<char>::empty());
    }
}

/// Trimming never makes a text longer.
pub proof fn lemma_trimmed_len(s: Seq<char>, class: CharClass)
    ensures
        trimmed(s, class).len() <= s.len(),
{
    lemma_trimmed_start_len(s, class);
    lemma_trimmed_end_len(trimmed_start(s, class), class);
}

/// Trimming the start never makes a text longer.
pub proof fn lemma_trimmed_start_len(s: Seq<char>, class: CharClass)
    ensures
        trimmed_start(s, class).len() <= s.len(),
    decreases s.len(),
{
    if s.len() > 0 && class.holds(s[0]) {
        lemma_trimmed_start_len(s.skip(1), class);
    }
}

/// Trimming the end never makes a text longer.
pub proof fn lemma_trimmed_end_len(s: Seq<char>, class: CharClass)
    ensures
        trimmed_end(s, class).len() <= s.len(),
    decreases s.len(),
{
    if s.len() > 0 && class.holds(s.last()) {
        lemma_trimmed_end_len(s.drop_last(), class);
    }
}

/// The position of the first `c` in `s`, or the length of `s` where `s`
/// holds no `c`.
pub fn find_char(s: &Vec<char>, c: char) -> (r: usize)
    ensures
        r == position_of(s@, c),
        r <= s@.len(),
        r < s@.len() ==> s@[r as int] == c,
        forall|j: int| 0 <= j < r ==> s@[j] != c,
{
    let mut i: usize = 0;
    while i < s.len() && s[i] != c
        invariant
            i <= s@.len(),
            forall|j: int| 0 <= j < i ==> s@[j] != c,
        decreases s@.len() - i,
    {
        i = i + 1;
    }
    proof {
        lemma_position_of(s@, c, i as int);
    }
    i
}

/// The position where what follows the last `c` in `s` begins.
pub fn after_last_start(s: &Vec<char>, c: char) -> (r: usize)
    ensures
        r <= s@.len(),
        after_last(s@, c) == s@.skip(r as int),
{
    let mut i: usize = s.len();
    while i > 0 && s[i - 1] != c
        invariant
            i <= s@.len(),
            forall|j: int| i <= j < s@.len() ==> s@[j] != c,
        decreases i,
    {
        i = i - 1;
    }
    proof {
        lemma_after_last(s@, c, i as int);
    }
    i
}

/// The string made of `v[from..to]` without the characters of `class` at
/// either end.
pub(crate) fn trimmed_range(v: &Vec<char>, from: usize, to: usize, class: CharClass) -> (r:
    String)
    requires
        from <= to <= v@.len(),
    ensures
        r@ == trimmed(v@.subrange(from as int, to as int), class),
{
    let mut piece: Vec<char> = Vec::new();
    push_range(&mut piece, v, from, to);
    assert(piece@ =~= v@.subrange(from as int, to as int));
    let (lo, hi) = trim_bounds(&piece, class);
    string_of_range(&piece, lo, hi)
}

} // verus!
