//! Text as sequences: whitespace, trimming, splitting at a separator and
//! splitting into lines, over characters and over bytes.
//!
//! The executable functions work on a slice and describe each piece by a
//! [`Span`] into it, so that nothing is copied until a piece is wanted as a
//! `String`.
use vstd::prelude::*;

verus! {

/// `String::push` of std appends the character to the end of the string
/// and changes nothing else of it.
pub assume_specification[ String::push ](s: &mut String, c: char)
    ensures
        final(s)@ == old(s)@.push(c),
;

/// An element of text that can be compared at run time: a byte or a character.
pub trait Symbol: Copy {
    /// Whether the two are the same element.
    fn same(self, other: Self) -> (b: bool)
        ensures
            b == (self == other),
    ;
}

impl Symbol for u8 {
    fn same(self, other: u8) -> (b: bool) {
        self == other
    }
}

impl Symbol for char {
    fn same(self, other: char) -> (b: bool) {
        self == other
    }
}

/// A half-open range of positions in a slice.
#[derive(Clone, Copy, Debug, PartialEq, Eq, Structural)]
pub struct Span {
    pub start: usize,
    pub end: usize,
}

impl Span {
    /// The range lies inside a sequence of `len` elements.
    pub open spec fn fits(self, len: nat) -> bool {
        self.start <= self.end <= len
    }

    /// The elements of `s` in the range.
    pub open spec fn of<T>(self, s: Seq<T>) -> Seq<T> {
        s.subrange(self.start as int, self.end as int)
    }
}

/// The pieces of `s` that `spans` describes, in order.
pub open spec fn pieces<T>(s: Seq<T>, spans: Seq<Span>) -> Seq<Seq<T>> {
    Seq::new(spans.len(), |i: int| spans[i].of(s))
}

/// Every span lies inside a sequence of `len` elements.
pub open spec fn all_fit(spans: Seq<Span>, len: nat) -> bool {
    forall|i: int| 0 <= i < spans.len() ==> (#[trigger] spans[i]).fits(len)
}

// ---------------------------------------------------------------------------
// What strings stand for
// ---------------------------------------------------------------------------

/// What an optional string stands for.
pub open spec fn text_of(s: Option<String>) -> Option<Seq<char>> {
    match s {
        Some(s) => Some(s@),
        None => None,
    }
}

/// What an optional string slice stands for.
pub open spec fn name_of(s: Option<&str>) -> Option<Seq<char>> {
    match s {
        Some(s) => Some(s@),
        None => None,
    }
}

/// What a text or an error stands for.
pub open spec fn outcome_of(outcome: Result<String, String>) -> Result<Seq<char>, Seq<char>> {
    match outcome {
        Ok(text) => Ok(text@),
        Err(error) => Err(error@),
    }
}

/// What a list of strings stands for.
pub open spec fn texts(v: Seq<String>) -> Seq<Seq<char>> {
    v.map_values(|s: String| s@)
}

/// What a table of string pairs stands for.
pub open spec fn text_pairs(v: Seq<(String, String)>) -> Seq<(Seq<char>, Seq<char>)> {
    v.map_values(|e: (String, String)| (e.0@, e.1@))
}

// ---------------------------------------------------------------------------
// Whitespace and trimming
// ---------------------------------------------------------------------------

/// The characters with the Unicode property `White_Space`.
pub open spec fn is_whitespace(c: char) -> bool {
    ||| '\u{9}' <= c <= '\u{d}'
    ||| c == ' '
    ||| c == '\u{85}'
    ||| c == '\u{a0}'
    ||| c == '\u{1680}'
    ||| '\u{2000}' <= c <= '\u{200a}'
    ||| c == '\u{2028}'
    ||| c == '\u{2029}'
    ||| c == '\u{202f}'
    ||| c == '\u{205f}'
    ||| c == '\u{3000}'
}

/// Whether `c` is whitespace.
pub fn char_is_whitespace(c: char) -> (b: bool)
    ensures
        b == is_whitespace(c),
{
    ('\u{9}' <= c && c <= '\u{d}') || c == ' ' || c == '\u{85}' || c == '\u{a0}' || c
        == '\u{1680}' || ('\u{2000}' <= c && c <= '\u{200a}') || c == '\u{2028}' || c
        == '\u{2029}' || c == '\u{202f}' || c == '\u{205f}' || c == '\u{3000}'
}

/// `s` without its leading whitespace.
pub open spec fn trim_start(s: Seq<char>) -> Seq<char>
    decreases s.len(),
{
    if s.len() > 0 && is_whitespace(s[0]) {
        trim_start(s.drop_first())
    } else {
        s
    }
}

/// `s` without its trailing whitespace.
pub open spec fn trim_end(s: Seq<char>) -> Seq<char>
    decreases s.len(),
{
    if s.len() > 0 && is_whitespace(s.last()) {
        trim_end(s.drop_last())
    } else {
        s
    }
}

/// `s` without its leading and trailing whitespace.
pub open spec fn trim(s: Seq<char>) -> Seq<char> {
    trim_end(trim_start(s))
}

/// Every character of `s` is whitespace.
pub open spec fn is_blank(s: Seq<char>) -> bool {
    forall|i: int| 0 <= i < s.len() ==> is_whitespace(#[trigger] s[i])
}

/// Dropping `n` leading whitespace characters does not change what
/// `trim_start` gives.
pub proof fn lemma_trim_start_skip(s: Seq<char>, n: int)
    requires
        0 <= n <= s.len(),
        forall|i: int| 0 <= i < n ==> is_whitespace(#[trigger] s[i]),
    ensures
        trim_start(s) == trim_start(s.skip(n)),
    decreases n,
{
    if n == 0 {
        assert(s.skip(0) =~= s);
    } else {
        let t = s.drop_first();
        assert forall|i: int| 0 <= i < n - 1 implies is_whitespace(#[trigger] t[i]) by {
            assert(t[i] == s[i + 1]);
        }
        lemma_trim_start_skip(t, n - 1);
        assert(t.skip(n - 1) =~= s.skip(n));
    }
}

/// Dropping trailing whitespace characters does not change what `trim_end`
/// gives.
pub proof fn lemma_trim_end_take(s: Seq<char>, n: int)
    requires
        0 <= n <= s.len(),
        forall|i: int| n <= i < s.len() ==> is_whitespace(#[trigger] s[i]),
    ensures
        trim_end(s) == trim_end(s.take(n)),
    decreases s.len() - n,
{
    if n == s.len() {
        assert(s.take(n) =~= s);
    } else {
        let t = s.drop_last();
        assert forall|i: int| n <= i < t.len() implies is_whitespace(#[trigger] t[i]) by {
            assert(t[i] == s[i]);
        }
        lemma_trim_end_take(t, n);
        assert(t.take(n) =~= s.take(n));
    }
}

/// Trimming leaves nothing exactly when every character is whitespace.
pub proof fn lemma_trim_blank(s: Seq<char>)
    ensures
        (trim(s).len() == 0) == is_blank(s),
    decreases s.len(),
{
    if s.len() > 0 && is_whitespace(s[0]) {
        let t = s.drop_first();
        lemma_trim_blank(t);
        if is_blank(t) {
            assert forall|i: int| 0 <= i < s.len() implies is_whitespace(#[trigger] s[i]) by {
                if i > 0 {
                    assert(s[i] == t[i - 1]);
                }
            }
        } else {
            let i = choose|i: int| 0 <= i < t.len() && !is_whitespace(#[trigger] t[i]);
            assert(s[i + 1] == t[i]);
        }
    } else if s.len() > 0 {
        lemma_trim_end_keeps_first(s);
    }
}

/// `trim_end` keeps a first character that is not whitespace.
proof fn lemma_trim_end_keeps_first(s: Seq<char>)
    requires
        s.len() > 0,
        !is_whitespace(s[0]),
    ensures
        trim_end(s).len() > 0,
    decreases s.len(),
{
    if is_whitespace(s.last()) {
        lemma_trim_end_keeps_first(s.drop_last());
    }
}

/// What `trim` gives neither starts nor ends with whitespace, so that
/// trimming it again changes nothing.
pub proof fn lemma_trim_idempotent(s: Seq<char>)
    ensures
        trim(trim(s)) == trim(s),
{
    lemma_trim_start_clean(s);
    lemma_trim_end_clean(trim_start(s));
}

/// What `trim_start` gives does not start with whitespace.
proof fn lemma_trim_start_clean(s: Seq<char>)
    ensures
        trim_start(s).len() > 0 ==> !is_whitespace(trim_start(s)[0]),
    decreases s.len(),
{
    if s.len() > 0 && is_whitespace(s[0]) {
        lemma_trim_start_clean(s.drop_first());
    }
}

/// What `trim_end` gives of a text that does not start with whitespace
/// neither starts nor ends with whitespace.
proof fn lemma_trim_end_clean(t: Seq<char>)
    requires
        t.len() > 0 ==> !is_whitespace(t[0]),
    ensures
        trim_end(trim_end(t)) == trim_end(t),
        trim_start(trim_end(t)) == trim_end(t),
    decreases t.len(),
{
    if t.len() > 0 && is_whitespace(t.last()) {
        let u = t.drop_last();
        if u.len() > 0 {
            assert(u[0] == t[0]);
        }
        lemma_trim_end_clean(u);
    }
}

/// The span of `s` within `within` that is left when leading and trailing
/// whitespace is dropped.
pub fn trim_span(s: &[char], within: Span) -> (r: Span)
    requires
        within.fits(s@.len()),
    ensures
        r.fits(s@.len()),
        within.start <= r.start,
        r.end <= within.end,
        r.of(s@) == trim(within.of(s@)),
{
    let ghost whole = within.of(s@);
    let mut a: usize = within.start;
    while a < within.end && char_is_whitespace(s[a])
        invariant
            within.fits(s@.len()),
            within.start <= a <= within.end,
            forall|i: int| within.start <= i < a ==> is_whitespace(#[trigger] s@[i]),
        decreases within.end - a,
    {
        a += 1;
    }
    let ghost rest = whole.skip(a - within.start);
    proof {
        assert forall|i: int| 0 <= i < a - within.start implies is_whitespace(
            #[trigger] whole[i],
        ) by {
            assert(whole[i] == s@[within.start + i]);
        }
        lemma_trim_start_skip(whole, a - within.start);
        assert(trim_start(rest) == rest);
    }
    let mut b: usize = within.end;
    while b > a && char_is_whitespace(s[b - 1])
        invariant
            within.fits(s@.len()),
            a <= b <= within.end,
            forall|i: int| b <= i < within.end ==> is_whitespace(#[trigger] s@[i]),
        decreases b,
    {
        b -= 1;
    }
    let r = Span { start: a, end: b };
    proof {
        assert forall|i: int| b - a <= i < rest.len() implies is_whitespace(#[trigger] rest[i]) by {
            assert(rest[i] == s@[a + i]);
        }
        lemma_trim_end_take(rest, b - a);
        assert(rest.take(b - a) =~= r.of(s@));
        assert(trim_end(r.of(s@)) == r.of(s@));
    }
    r
}

// ---------------------------------------------------------------------------
// Finding and splitting
// ---------------------------------------------------------------------------

/// The position of the first `x` in `s`, or the length of `s` where it holds
/// none.
pub open spec fn find<T>(s: Seq<T>, x: T) -> int
    decreases s.len(),
{
    if s.len() == 0 || s[0] == x {
        0
    } else {
        1 + find(s.drop_first(), x)
    }
}

/// `find` gives the one position before which no `x` stands and at which
/// one does, unless it is the length.
pub proof fn lemma_find<T>(s: Seq<T>, x: T)
    ensures
        0 <= find(s, x) <= s.len(),
        forall|i: int| 0 <= i < find(s, x) ==> #[trigger] s[i] != x,
        find(s, x) < s.len() ==> s[find(s, x)] == x,
    decreases s.len(),
{
    if s.len() == 0 || s[0] == x {
    } else {
        let t = s.drop_first();
        lemma_find(t, x);
        assert forall|i: int| 0 <= i < find(s, x) implies #[trigger] s[i] != x by {
            if i > 0 {
                assert(s[i] == t[i - 1]);
            }
        }
    }
}

/// A position before which no `x` stands, and which holds an `x` or is the
/// length, is the one that `find` gives.
pub proof fn lemma_find_is<T>(s: Seq<T>, x: T, n: int)
    requires
        0 <= n <= s.len(),
        forall|i: int| 0 <= i < n ==> #[trigger] s[i] != x,
        n < s.len() ==> s[n] == x,
    ensures
        find(s, x) == n,
{
    lemma_find(s, x);
    let m = find(s, x);
    if m < n {
        assert(s[m] != x);
    } else if n < m {
        assert(s[n] != x);
    }
}

/// The pieces of `s` between the occurrences of `sep`. There is always at
/// least one piece, and a piece may be empty.
pub open spec fn split<T>(s: Seq<T>, sep: T) -> Seq<Seq<T>>
    decreases s.len(),
{
    let n = find(s, sep);
    if 0 <= n < s.len() {
        seq![s.take(n)] + split(s.skip(n + 1), sep)
    } else {
        seq![s]
    }
}

/// A line without the carriage return that ended it, if one did.
pub open spec fn strip_cr<T>(line: Seq<T>, cr: T) -> Seq<T> {
    if line.len() > 0 && line.last() == cr {
        line.drop_last()
    } else {
        line
    }
}

/// The lines of `s`. A line ends at `nl`, or at `cr` directly followed by
/// `nl`; neither belongs to the line. The last line may lack its ending, and
/// an empty text has no line.
pub open spec fn lines<T>(s: Seq<T>, nl: T, cr: T) -> Seq<Seq<T>>
    decreases s.len(),
{
    let n = find(s, nl);
    if s.len() == 0 {
        seq![]
    } else if 0 <= n < s.len() {
        seq![strip_cr(s.take(n), cr)] + lines(s.skip(n + 1), nl, cr)
    } else {
        seq![s]
    }
}

/// The number of `x` in `s`.
pub open spec fn count<T>(s: Seq<T>, x: T) -> nat
    decreases s.len(),
{
    if s.len() == 0 {
        0
    } else {
        count(s.drop_first(), x) + if s[0] == x {
            1nat
        } else {
            0nat
        }
    }
}

/// `parts` put together with `sep` between each two.
pub open spec fn join<T>(parts: Seq<Seq<T>>, sep: T) -> Seq<T>
    decreases parts.len(),
{
    if parts.len() == 0 {
        seq![]
    } else if parts.len() == 1 {
        parts[0]
    } else {
        join(parts.drop_last(), sep).push(sep) + parts.last()
    }
}

/// The last `k` of `parts`, or all of them where there are fewer.
pub open spec fn last_n<T>(parts: Seq<T>, k: nat) -> Seq<T> {
    if k >= parts.len() {
        parts
    } else {
        parts.skip(parts.len() - k)
    }
}

/// A single element counts as one `x` if it is `x`, and as none otherwise.
pub proof fn lemma_count_one<T>(y: T, x: T)
    ensures
        count(seq![y], x) == if y == x {
            1nat
        } else {
            0nat
        },
{
    assert(seq![y].drop_first() =~= Seq::<T>::empty());
    assert(count(seq![y].drop_first(), x) == 0);
}

/// A sequence holds no more `x` than it has elements.
pub proof fn lemma_count_bound<T>(s: Seq<T>, x: T)
    ensures
        count(s, x) <= s.len(),
    decreases s.len(),
{
    if s.len() > 0 {
        lemma_count_bound(s.drop_first(), x);
    }
}

/// The `x` of two sequences put together are those of the one and those of
/// the other.
pub proof fn lemma_count_concat<T>(a: Seq<T>, b: Seq<T>, x: T)
    ensures
        count(a + b, x) == count(a, x) + count(b, x),
    decreases a.len(),
{
    if a.len() == 0 {
        assert(a + b =~= b);
    } else {
        assert((a + b).drop_first() =~= a.drop_first() + b);
        lemma_count_concat(a.drop_first(), b, x);
    }
}

/// Up to its first `x`, a sequence holds no `x`; that one is counted, and
/// the others stand behind it.
pub proof fn lemma_count_find<T>(s: Seq<T>, x: T)
    ensures
        find(s, x) < s.len() ==> count(s, x) == 1 + count(s.skip(find(s, x) + 1), x),
        find(s, x) >= s.len() ==> count(s, x) == 0,
    decreases s.len(),
{
    if s.len() == 0 {
    } else if s[0] == x {
        assert(s.skip(1) =~= s.drop_first());
    } else {
        let t = s.drop_first();
        lemma_count_find(t, x);
        lemma_find(t, x);
        if find(t, x) < t.len() {
            assert(t.skip(find(t, x) + 1) =~= s.skip(find(s, x) + 1));
        }
    }
}

/// A text has at least as many lines as it has line endings.
pub proof fn lemma_lines_count<T>(s: Seq<T>, nl: T, cr: T)
    ensures
        lines(s, nl, cr).len() >= count(s, nl),
        s.len() > 0 ==> lines(s, nl, cr).len() <= count(s, nl) + 1,
    decreases s.len(),
{
    lemma_find(s, nl);
    lemma_count_find(s, nl);
    let n = find(s, nl);
    if s.len() > 0 && n < s.len() {
        lemma_lines_count(s.skip(n + 1), nl, cr);
    }
}

/// The lines of a text that go beyond a line ending are the lines up to
/// that ending, followed by the lines behind it.
pub proof fn lemma_lines_concat<T>(u: Seq<T>, v: Seq<T>, nl: T, cr: T)
    ensures
        lines(u.push(nl) + v, nl, cr) == lines(u.push(nl), nl, cr) + lines(v, nl, cr),
    decreases u.len(),
{
    let head = u.push(nl);
    let s = head + v;
    lemma_find(u, nl);
    let n = find(u, nl);
    assert forall|i: int| 0 <= i < n implies #[trigger] s[i] != nl by {
        assert(s[i] == u[i]);
    }
    assert forall|i: int| 0 <= i < n implies #[trigger] head[i] != nl by {
        assert(head[i] == u[i]);
    }
    if n < u.len() {
        assert(s[n] == u[n]);
        assert(head[n] == u[n]);
    }
    lemma_find_is(s, nl, n);
    lemma_find_is(head, nl, n);
    if n < u.len() {
        let rest = u.skip(n + 1);
        assert(s.take(n) =~= head.take(n));
        assert(s.skip(n + 1) =~= rest.push(nl) + v);
        assert(head.skip(n + 1) =~= rest.push(nl));
        lemma_lines_concat(rest, v, nl, cr);
        assert(lines(s, nl, cr) =~= lines(head, nl, cr) + lines(v, nl, cr));
    } else {
        assert(s.take(n) =~= head.take(n));
        assert(s.skip(n + 1) =~= v);
        assert(head.skip(n + 1) =~= Seq::<T>::empty());
        assert(lines(Seq::<T>::empty(), nl, cr) =~= Seq::<Seq<T>>::empty());
        assert(lines(s, nl, cr) =~= lines(head, nl, cr) + lines(v, nl, cr));
    }
}

/// The last `k` of a list are among what follows its first part, where
/// that holds `k` or more.
pub proof fn lemma_last_n_concat<T>(a: Seq<T>, b: Seq<T>, k: nat)
    requires
        b.len() >= k,
    ensures
        last_n(a + b, k) == last_n(b, k),
{
    assert(last_n(a + b, k) =~= last_n(b, k));
}

/// Behind more than `k` line endings, the last `k` lines of a text do not
/// depend on what stands before.
pub proof fn lemma_last_lines_of_suffix<T>(before: Seq<T>, s: Seq<T>, k: nat, nl: T, cr: T)
    requires
        count(s, nl) > k,
    ensures
        last_n(lines(before + s, nl, cr), k) == last_n(lines(s, nl, cr), k),
{
    lemma_find(s, nl);
    lemma_count_find(s, nl);
    let n = find(s, nl);
    let first = s.take(n);
    let rest = s.skip(n + 1);
    assert(s =~= first.push(nl) + rest);
    assert(before + s =~= (before + first).push(nl) + rest);
    lemma_lines_concat(first, rest, nl, cr);
    lemma_lines_concat(before + first, rest, nl, cr);
    lemma_lines_count(rest, nl, cr);
    lemma_last_n_concat(lines(first.push(nl), nl, cr), lines(rest, nl, cr), k);
    lemma_last_n_concat(lines((before + first).push(nl), nl, cr), lines(rest, nl, cr), k);
}

/// The last `k` lines of `s`, or all of them where it has fewer, with `nl`
/// between each two.
pub open spec fn tail<T>(s: Seq<T>, k: nat, nl: T, cr: T) -> Seq<T> {
    join(last_n(lines(s, nl, cr), k), nl)
}

/// Tail correctness: the tail of a text is its last `k` lines put together;
/// where `k` is the number of its lines or more, all of them; and the tail
/// of an empty text, and that of no lines, is empty.
pub proof fn law_tail<T>(s: Seq<T>, k: nat, nl: T, cr: T)
    ensures
        k < lines(s, nl, cr).len() ==> tail(s, k, nl, cr) == join(
            lines(s, nl, cr).skip(lines(s, nl, cr).len() - k),
            nl,
        ),
        k >= lines(s, nl, cr).len() ==> tail(s, k, nl, cr) == join(lines(s, nl, cr), nl),
        s.len() == 0 ==> tail(s, k, nl, cr) == Seq::<T>::empty(),
        tail(s, 0, nl, cr) == Seq::<T>::empty(),
{
    assert(last_n(lines(s, nl, cr), 0) =~= Seq::<Seq<T>>::empty());
}

/// The position of the first `x` in `s[from..to]`, or `to`.
pub fn find_in<T: Symbol>(s: &[T], from: usize, to: usize, x: T) -> (at: usize)
    requires
        from <= to <= s@.len(),
    ensures
        from <= at <= to,
        at - from == find(s@.subrange(from as int, to as int), x),
{
    let mut at: usize = from;
    while at < to && !s[at].same(x)
        invariant
            from <= at <= to <= s@.len(),
            forall|i: int| from <= i < at ==> #[trigger] s@[i] != x,
        decreases to - at,
    {
        at += 1;
    }
    proof {
        let sub = s@.subrange(from as int, to as int);
        assert forall|i: int| 0 <= i < at - from implies #[trigger] sub[i] != x by {
            assert(sub[i] == s@[from + i]);
        }
        lemma_find_is(sub, x, at - from);
    }
    at
}

/// The spans of the pieces of `s[within]` between the occurrences of `sep`.
pub fn split_spans<T: Symbol>(s: &[T], within: Span, sep: T) -> (r: Vec<Span>)
    requires
        within.fits(s@.len()),
    ensures
        all_fit(r@, s@.len()),
        pieces(s@, r@) == split(within.of(s@), sep),
{
    let mut r: Vec<Span> = Vec::new();
    let mut from: usize = within.start;
    let end = within.end;
    loop
        invariant_except_break
            within.fits(s@.len()),
            end == within.end,
            within.start <= from <= end,
            all_fit(r@, s@.len()),
            pieces(s@, r@) + split(s@.subrange(from as int, end as int), sep) == split(
                within.of(s@),
                sep,
            ),
        ensures
            all_fit(r@, s@.len()),
            pieces(s@, r@) == split(within.of(s@), sep),
        decreases end - from,
    {
        let at = find_in(s, from, end, sep);
        let ghost rest = s@.subrange(from as int, end as int);
        let ghost before = pieces(s@, r@);
        let piece = Span { start: from, end: at };
        r.push(piece);
        proof {
            assert(rest.take(at - from) =~= piece.of(s@));
            assert(pieces(s@, r@) =~= before.push(piece.of(s@)));
        }
        if at < end {
            proof {
                assert(rest.skip(at - from + 1) =~= s@.subrange(at + 1, end as int));
                assert(before.push(piece.of(s@)) + split(s@.subrange(at + 1, end as int), sep)
                    =~= before + split(rest, sep));
            }
            from = at + 1;
        } else {
            proof {
                assert(rest =~= piece.of(s@));
                assert(before.push(piece.of(s@)) =~= before + split(rest, sep));
            }
            break ;
        }
    }
    r
}

/// The spans of the lines of `s[within]`.
pub fn line_spans<T: Symbol>(s: &[T], within: Span, nl: T, cr: T) -> (r: Vec<Span>)
    requires
        within.fits(s@.len()),
    ensures
        all_fit(r@, s@.len()),
        pieces(s@, r@) == lines(within.of(s@), nl, cr),
{
    let mut r: Vec<Span> = Vec::new();
    let mut from: usize = within.start;
    let end = within.end;
    while from < end
        invariant
            within.fits(s@.len()),
            end == within.end,
            within.start <= from <= end,
            all_fit(r@, s@.len()),
            pieces(s@, r@) + lines(s@.subrange(from as int, end as int), nl, cr) == lines(
                within.of(s@),
                nl,
                cr,
            ),
        decreases end - from,
    {
        let at = find_in(s, from, end, nl);
        let ghost rest = s@.subrange(from as int, end as int);
        let ghost before = pieces(s@, r@);
        if at < end {
            let stop = if at > from && s[at - 1].same(cr) {
                at - 1
            } else {
                at
            };
            let piece = Span { start: from, end: stop };
            r.push(piece);
            proof {
                let raw = rest.take(at - from);
                assert(raw =~= s@.subrange(from as int, at as int));
                assert(strip_cr(raw, cr) =~= piece.of(s@));
                assert(pieces(s@, r@) =~= before.push(piece.of(s@)));
                assert(rest.skip(at - from + 1) =~= s@.subrange(at + 1, end as int));
                assert(before.push(piece.of(s@)) + lines(s@.subrange(at + 1, end as int), nl, cr)
                    =~= before + lines(rest, nl, cr));
            }
            from = at + 1;
        } else {
            let piece = Span { start: from, end: end };
            r.push(piece);
            proof {
                assert(rest =~= piece.of(s@));
                assert(pieces(s@, r@) =~= before.push(piece.of(s@)));
                assert(lines(s@.subrange(end as int, end as int), nl, cr) =~= Seq::<
                    Seq<T>,
                >::empty());
                assert(before.push(piece.of(s@)) =~= before + lines(rest, nl, cr));
            }
            from = end;
        }
    }
    proof {
        assert(lines(s@.subrange(from as int, end as int), nl, cr) =~= Seq::<Seq<T>>::empty());
        assert(pieces(s@, r@) + Seq::<Seq<T>>::empty() =~= pieces(s@, r@));
    }
    r
}

// ---------------------------------------------------------------------------
// Words
// ---------------------------------------------------------------------------

/// The number of characters before the first whitespace of `s`.
pub open spec fn word_len(s: Seq<char>) -> int
    decreases s.len(),
{
    if s.len() == 0 || is_whitespace(s[0]) {
        0
    } else {
        1 + word_len(s.drop_first())
    }
}

/// The words of `s`: its longest runs of characters that are not whitespace.
pub open spec fn words(s: Seq<char>) -> Seq<Seq<char>>
    decreases s.len(),
{
    let t = trim_start(s);
    let n = word_len(t);
    if 0 < n <= t.len() <= s.len() {
        seq![t.take(n)] + words(t.skip(n))
    } else {
        seq![]
    }
}

/// `word_len` gives the one position before which no whitespace stands and
/// at which some does, unless it is the length.
pub proof fn lemma_word_len_is(s: Seq<char>, n: int)
    requires
        0 <= n <= s.len(),
        forall|i: int| 0 <= i < n ==> !is_whitespace(#[trigger] s[i]),
        n < s.len() ==> is_whitespace(s[n]),
    ensures
        word_len(s) == n,
    decreases n,
{
    if n > 0 {
        let t = s.drop_first();
        assert forall|i: int| 0 <= i < n - 1 implies !is_whitespace(#[trigger] t[i]) by {
            assert(t[i] == s[i + 1]);
        }
        if n < s.len() {
            assert(t[n - 1] == s[n]);
        }
        lemma_word_len_is(t, n - 1);
    }
}

/// The spans of the words of `s[within]`.
pub fn word_spans(s: &[char], within: Span) -> (r: Vec<Span>)
    requires
        within.fits(s@.len()),
    ensures
        all_fit(r@, s@.len()),
        pieces(s@, r@) == words(within.of(s@)),
{
    let mut r: Vec<Span> = Vec::new();
    let mut from: usize = within.start;
    let end = within.end;
    loop
        invariant_except_break
            within.fits(s@.len()),
            end == within.end,
            within.start <= from <= end,
            all_fit(r@, s@.len()),
            pieces(s@, r@) + words(s@.subrange(from as int, end as int)) == words(within.of(s@)),
        ensures
            all_fit(r@, s@.len()),
            pieces(s@, r@) == words(within.of(s@)),
        decreases end - from,
    {
        let ghost rest = s@.subrange(from as int, end as int);
        let ghost before = pieces(s@, r@);
        let mut a: usize = from;
        while a < end && char_is_whitespace(s[a])
            invariant
                from <= a <= end <= s@.len(),
                forall|i: int| from <= i < a ==> is_whitespace(#[trigger] s@[i]),
            decreases end - a,
        {
            a += 1;
        }
        let ghost t = s@.subrange(a as int, end as int);
        proof {
            assert forall|i: int| 0 <= i < a - from implies is_whitespace(#[trigger] rest[i]) by {
                assert(rest[i] == s@[from + i]);
            }
            lemma_trim_start_skip(rest, a - from);
            assert(rest.skip(a - from) =~= t);
            assert(trim_start(t) == t);
        }
        if a == end {
            proof {
                assert(words(rest) =~= Seq::<Seq<char>>::empty());
                assert(before + words(rest) =~= before);
            }
            break ;
        }
        let mut b: usize = a + 1;
        while b < end && !char_is_whitespace(s[b])
            invariant
                a < b <= end <= s@.len(),
                forall|i: int| a <= i < b ==> !is_whitespace(#[trigger] s@[i]),
            decreases end - b,
        {
            b += 1;
        }
        let piece = Span { start: a, end: b };
        r.push(piece);
        proof {
            assert forall|i: int| 0 <= i < b - a implies !is_whitespace(#[trigger] t[i]) by {
                assert(t[i] == s@[a + i]);
            }
            if b < end {
                assert(t[b - a] == s@[b as int]);
            }
            lemma_word_len_is(t, b - a);
            assert(t.take(b - a) =~= piece.of(s@));
            assert(t.skip(b - a) =~= s@.subrange(b as int, end as int));
            assert(pieces(s@, r@) =~= before.push(piece.of(s@)));
            assert(before.push(piece.of(s@)) + words(s@.subrange(b as int, end as int)) =~= before
                + words(rest));
        }
        from = b;
    }
    r
}

// ---------------------------------------------------------------------------
// Strings and characters
// ---------------------------------------------------------------------------

/// The characters of `s`.
pub fn to_chars(s: &str) -> (v: Vec<char>)
    ensures
        v@ == s@,
{
    let mut v: Vec<char> = Vec::new();
    for c in it: s.chars()
        invariant
            v@ == s@.take(it.index() as int),
            it.seq() == s@,
    {
        v.push(c);
    }
    v
}

/// `s[within]` as a `String`.
pub fn span_to_string(s: &[char], within: Span) -> (r: String)
    requires
        within.fits(s@.len()),
    ensures
        r@ == within.of(s@),
{
    let mut r = String::new();
    let mut i: usize = within.start;
    while i < within.end
        invariant
            within.fits(s@.len()),
            within.start <= i <= within.end,
            r@ == s@.subrange(within.start as int, i as int),
        decreases within.end - i,
    {
        r.push(s[i]);
        i += 1;
    }
    r
}

/// Whether `s[within]` holds exactly the characters of `word`.
pub fn span_is(s: &[char], within: Span, word: &str) -> (b: bool)
    requires
        within.fits(s@.len()),
    ensures
        b == (within.of(s@) == word@),
{
    let w = to_chars(word);
    if w.len() != within.end - within.start {
        return false;
    }
    let mut i: usize = 0;
    while i < w.len()
        invariant
            within.fits(s@.len()),
            w@ == word@,
            w@.len() == within.end - within.start,
            0 <= i <= w@.len(),
            forall|k: int| 0 <= k < i ==> s@[within.start + k] == w@[k],
        decreases w@.len() - i,
    {
        if s[within.start + i] != w[i] {
            proof {
                assert(within.of(s@)[i as int] == s@[within.start + i]);
            }
            return false;
        }
        i += 1;
    }
    proof {
        assert(within.of(s@) =~= w@);
    }
    true
}

/// Whether `s[within]` starts with the characters of `word`.
pub fn span_starts_with(s: &[char], within: Span, word: &[char]) -> (b: bool)
    requires
        within.fits(s@.len()),
    ensures
        b == starts_with(within.of(s@), word@),
{
    if word.len() > within.end - within.start {
        return false;
    }
    let mut i: usize = 0;
    while i < word.len()
        invariant
            within.fits(s@.len()),
            word@.len() <= within.end - within.start,
            0 <= i <= word@.len(),
            forall|k: int| 0 <= k < i ==> s@[within.start + k] == word@[k],
        decreases word@.len() - i,
    {
        if s[within.start + i] != word[i] {
            proof {
                assert(within.of(s@).take(word@.len() as int)[i as int] == s@[within.start + i]);
            }
            return false;
        }
        i += 1;
    }
    proof {
        assert(within.of(s@).take(word@.len() as int) =~= word@);
    }
    true
}

/// `s` begins with `prefix`.
pub open spec fn starts_with<T>(s: Seq<T>, prefix: Seq<T>) -> bool {
    prefix.len() <= s.len() && s.take(prefix.len() as int) == prefix
}

// ---------------------------------------------------------------------------
// Decimal numbers
// ---------------------------------------------------------------------------

/// The character of the decimal digit `d`.
pub open spec fn digit(d: nat) -> char
    recommends
        d < 10,
{
    ((48 + d) as u8) as char
}

/// `n` written in decimal, without leading zeros.
pub open spec fn decimal(n: nat) -> Seq<char>
    decreases n,
{
    if n < 10 {
        seq![digit(n)]
    } else {
        decimal(n / 10).push(digit(n % 10))
    }
}

/// Appends `n`, written in decimal, to `out`.
pub fn push_decimal(out: &mut String, n: usize)
    ensures
        final(out)@ == old(out)@ + decimal(n as nat),
    decreases n,
{
    if n >= 10 {
        push_decimal(out, n / 10);
    }
    let d: u8 = (n % 10) as u8;
    out.push((48 + d) as char);
    proof {
        if n >= 10 {
            assert(old(out)@ + decimal(n as nat) =~= (old(out)@ + decimal((n / 10) as nat)).push(
                digit((n % 10) as nat),
            ));
        } else {
            assert(old(out)@ + decimal(n as nat) =~= old(out)@.push(digit(n as nat)));
        }
    }
}

/// Appends `s[within]` to `out`.
pub fn push_span(out: &mut String, s: &[char], within: Span)
    requires
        within.fits(s@.len()),
    ensures
        final(out)@ == old(out)@ + within.of(s@),
{
    let mut i: usize = within.start;
    while i < within.end
        invariant
            within.fits(s@.len()),
            within.start <= i <= within.end,
            out@ == old(out)@ + s@.subrange(within.start as int, i as int),
        decreases within.end - i,
    {
        out.push(s[i]);
        proof {
            assert(out@ =~= old(out)@ + s@.subrange(within.start as int, i + 1));
        }
        i += 1;
    }
}

} // verus!
