//! Character-sequence primitives that the parsers are built from.

use vstd::prelude::*;
use vstd::std_specs::iter::IteratorSpec;

verus! {

/// Whether `c` has the Unicode `White_Space` property.
pub open spec fn is_space(c: char) -> bool {
    let n = c as u32;
    ||| 0x09 <= n <= 0x0D
    ||| n == 0x20
    ||| n == 0x85
    ||| n == 0xA0
    ||| n == 0x1680
    ||| 0x2000 <= n <= 0x200A
    ||| n == 0x2028
    ||| n == 0x2029
    ||| n == 0x202F
    ||| n == 0x205F
    ||| n == 0x3000
}

/// Whether `c` is one of the five ASCII whitespace characters.
pub open spec fn is_ascii_space(c: char) -> bool {
    c == ' ' || c == '\t' || c == '\n' || c == '\x0C' || c == '\r'
}

/// The predicate "is the character `c`".
pub open spec fn is_char(c: char) -> spec_fn(char) -> bool {
    |x: char| x == c
}

/// The predicate "is whitespace".
pub open spec fn space() -> spec_fn(char) -> bool {
    |x: char| is_space(x)
}

/// The predicate "is not whitespace".
pub open spec fn not_space() -> spec_fn(char) -> bool {
    |x: char| !is_space(x)
}

/// The predicate "is ASCII whitespace".
pub open spec fn ascii_space() -> spec_fn(char) -> bool {
    |x: char| is_ascii_space(x)
}

/// The predicate "is not ASCII whitespace".
pub open spec fn not_ascii_space() -> spec_fn(char) -> bool {
    |x: char| !is_ascii_space(x)
}

/// The predicate "is a round bracket".
pub open spec fn is_paren() -> spec_fn(char) -> bool {
    |x: char| x == '(' || x == ')'
}

/// The sequences that the vectors of `v` hold.
pub open spec fn views(v: Seq<Vec<char>>) -> Seq<Seq<char>> {
    v.map_values(|x: Vec<char>| x@)
}

/// The sequences that the strings of `v` hold.
pub open spec fn string_views(v: Seq<String>) -> Seq<Seq<char>> {
    v.map_values(|x: String| x@)
}

/// Index of the first character of `s` that satisfies `p`; the length of
/// `s` when there is none.
pub open spec fn first_where(s: Seq<char>, p: spec_fn(char) -> bool) -> nat
    decreases s.len(),
{
    if s.len() == 0 || p(s[0]) {
        0
    } else {
        1 + first_where(s.skip(1), p)
    }
}

/// Number of characters of `s` that are equal to `c`.
pub open spec fn count(s: Seq<char>, c: char) -> nat
    decreases s.len(),
{
    if s.len() == 0 {
        0
    } else {
        count(s.skip(1), c) + if s[0] == c { 1nat } else { 0nat }
    }
}

/// The two parts of `s` around its first character that satisfies `p`;
/// `None` when there is no such character.
pub open spec fn cut_first(s: Seq<char>, p: spec_fn(char) -> bool) -> Option<
    (Seq<char>, Seq<char>),
> {
    let i = first_where(s, p) as int;
    if i < s.len() {
        Some((s.take(i), s.skip(i + 1)))
    } else {
        None
    }
}

/// The two parts of `s` around its only occurrence of `c`; `None` when `c`
/// occurs never or more than once.
pub open spec fn cut_once(s: Seq<char>, c: char) -> Option<(Seq<char>, Seq<char>)> {
    if count(s, c) == 1 {
        cut_first(s, is_char(c))
    } else {
        None
    }
}

/// The two parts of `s` around the last occurrence of `c`; `None` when `c`
/// does not occur.
pub open spec fn cut_last(s: Seq<char>, c: char) -> Option<(Seq<char>, Seq<char>)> {
    let i = last_index(s, c);
    if i >= 0 {
        Some((s.take(i), s.skip(i + 1)))
    } else {
        None
    }
}

/// Number of bytes that the UTF-8 encoding of `c` takes.
pub open spec fn utf8_len(c: char) -> nat {
    let n = c as u32;
    if n < 0x80 {
        1
    } else if n < 0x800 {
        2
    } else if n < 0x10000 {
        3
    } else {
        4
    }
}

/// Number of leading characters of `s` that it takes to cover `bytes`
/// bytes of its UTF-8 encoding; all of them when `s` is shorter.
pub open spec fn chars_covering(s: Seq<char>, bytes: nat) -> nat
    decreases s.len(),
{
    if s.len() == 0 || bytes == 0 {
        0
    } else if utf8_len(s[0]) >= bytes {
        1
    } else {
        1 + chars_covering(s.skip(1), (bytes - utf8_len(s[0])) as nat)
    }
}

/// `s` without its leading whitespace.
pub open spec fn trim_start(s: Seq<char>) -> Seq<char> {
    s.skip(first_where(s, not_space()) as int)
}

/// `s` without its trailing whitespace.
pub open spec fn trim_end(s: Seq<char>) -> Seq<char>
    decreases s.len(),
{
    if s.len() > 0 && is_space(s.last()) {
        trim_end(s.drop_last())
    } else {
        s
    }
}

/// `s` without its leading and trailing whitespace.
pub open spec fn trim(s: Seq<char>) -> Seq<char> {
    trim_end(trim_start(s))
}

/// Whether `s` begins with `p`.
pub open spec fn starts_with(s: Seq<char>, p: Seq<char>) -> bool {
    p.len() <= s.len() && s.take(p.len() as int) == p
}

/// Whether `s` ends with `p`.
pub open spec fn ends_with(s: Seq<char>, p: Seq<char>) -> bool {
    p.len() <= s.len() && s.skip(s.len() - p.len()) == p
}

/// The pieces of `s` between occurrences of `sep`. There is always at least
/// one piece; `n` separators give `n + 1` pieces.
pub open spec fn split(s: Seq<char>, sep: char) -> Seq<Seq<char>>
    decreases s.len(),
{
    let i = first_where(s, is_char(sep)) as int;
    if i >= s.len() {
        seq![s]
    } else {
        seq![s.take(i)] + split(s.skip(i + 1), sep)
    }
}

/// `s` without one trailing carriage return.
pub open spec fn chomp_cr(s: Seq<char>) -> Seq<char> {
    if s.len() > 0 && s.last() == '\r' {
        s.drop_last()
    } else {
        s
    }
}

/// The lines of `s`. A line ends at `\n` or `\r\n`; the terminator is not
/// part of the line, and the last line needs none.
pub open spec fn lines(s: Seq<char>) -> Seq<Seq<char>>
    decreases s.len(),
{
    if s.len() == 0 {
        Seq::empty()
    } else {
        let i = first_where(s, is_char('\n')) as int;
        if i >= s.len() {
            seq![s]
        } else {
            seq![chomp_cr(s.take(i))] + lines(s.skip(i + 1))
        }
    }
}

/// The maximal runs of characters of `s` that hold no ASCII whitespace.
pub open spec fn words(s: Seq<char>) -> Seq<Seq<char>>
    decreases s.len(),
    via words_decreases
{
    let a = first_where(s, not_ascii_space()) as int;
    if a >= s.len() {
        Seq::empty()
    } else {
        let t = s.skip(a);
        let b = first_where(t, ascii_space()) as int;
        seq![t.take(b)] + words(t.skip(b))
    }
}

#[via_fn]
proof fn words_decreases(s: Seq<char>) {
    let a = first_where(s, not_ascii_space()) as int;
    if a < s.len() {
        lemma_first_where_found(s, not_ascii_space());
        let t = s.skip(a);
        lemma_first_where_found(t, ascii_space());
        assert(!ascii_space()(t[0]));
    }
}

/// `items` written one after the other with `sep` between neighbours.
pub open spec fn joined(items: Seq<Seq<char>>, sep: Seq<char>) -> Seq<char>
    decreases items.len(),
{
    if items.len() == 0 {
        Seq::empty()
    } else if items.len() == 1 {
        items[0]
    } else {
        joined(items.drop_last(), sep) + sep + items.last()
    }
}

/// `s` without the characters that satisfy `p`.
pub open spec fn without(s: Seq<char>, p: spec_fn(char) -> bool) -> Seq<char>
    decreases s.len(),
{
    if s.len() == 0 {
        s
    } else if p(s.last()) {
        without(s.drop_last(), p)
    } else {
        without(s.drop_last(), p).push(s.last())
    }
}

/// Index of the last occurrence of `c` in `s`; `-1` when there is none.
pub open spec fn last_index(s: Seq<char>, c: char) -> int
    decreases s.len(),
{
    if s.len() == 0 {
        -1
    } else if s.last() == c {
        s.len() - 1
    } else {
        last_index(s.drop_last(), c)
    }
}

/// Whether `c` is a decimal digit.
pub open spec fn is_digit(c: char) -> bool {
    '0' <= c <= '9'
}

/// The number that the decimal digits of `s` write.
pub open spec fn digits_value(s: Seq<char>) -> nat
    decreases s.len(),
{
    if s.len() == 0 {
        0
    } else {
        digits_value(s.drop_last()) * 10 + (s.last() as u32 - '0' as u32) as nat
    }
}

/// Whether `s` holds decimal digits only.
pub open spec fn all_digits(s: Seq<char>) -> bool {
    forall|i: int| 0 <= i < s.len() ==> is_digit(#[trigger] s[i])
}

/// `s` without one leading `+`.
pub open spec fn unsigned_part(s: Seq<char>) -> Seq<char> {
    if s.len() > 0 && s[0] == '+' {
        s.skip(1)
    } else {
        s
    }
}

/// The unsigned 64-bit number that `s` writes in decimal: one optional `+`,
/// then at least one digit and nothing else. `None` when `s` has another
/// shape or the number does not fit.
pub open spec fn parse_u64(s: Seq<char>) -> Option<u64> {
    let d = unsigned_part(s);
    if d.len() > 0 && all_digits(d) && digits_value(d) <= u64::MAX {
        Some(digits_value(d) as u64)
    } else {
        None
    }
}

/// `last_index` is `-1` or an index of `s`.
pub proof fn lemma_last_index_bound(s: Seq<char>, c: char)
    ensures
        -1 <= last_index(s, c) < s.len(),
        last_index(s, c) >= 0 ==> s[last_index(s, c)] == c,
        forall|j: int| last_index(s, c) < j < s.len() ==> #[trigger] s[j] != c,
    decreases s.len(),
{
    if s.len() > 0 && s.last() != c {
        lemma_last_index_bound(s.drop_last(), c);
        assert forall|j: int| last_index(s, c) < j < s.len() implies #[trigger] s[j] != c by {
            if j < s.len() - 1 {
                assert(s.drop_last()[j] == s[j]);
            }
        }
    }
}

/// No character of `s` is `c` exactly when `c` is counted zero times.
pub proof fn lemma_count_zero(s: Seq<char>, c: char)
    ensures
        count(s, c) == 0 <==> forall|j: int| 0 <= j < s.len() ==> #[trigger] s[j] != c,
    decreases s.len(),
{
    if s.len() > 0 {
        let t = s.skip(1);
        lemma_count_zero(t, c);
        if count(s, c) == 0 {
            assert forall|j: int| 0 <= j < s.len() implies #[trigger] s[j] != c by {
                if j > 0 {
                    assert(t[j - 1] == s[j]);
                }
            }
        }
        if forall|j: int| 0 <= j < s.len() ==> #[trigger] s[j] != c {
            assert forall|j: int| 0 <= j < t.len() implies #[trigger] t[j] != c by {
                assert(t[j] == s[j + 1]);
            }
            assert(s[0] != c);
        }
    }
}

/// Joining with one more item in front.
pub proof fn lemma_joined_front(x: Seq<char>, rest: Seq<Seq<char>>, sep: Seq<char>)
    ensures
        joined(seq![x] + rest, sep) == if rest.len() == 0 {
            x
        } else {
            x + sep + joined(rest, sep)
        },
    decreases rest.len(),
{
    let all = seq![x] + rest;
    if rest.len() == 0 {
        assert(all[0] == x);
    } else {
        assert(all.drop_last() =~= seq![x] + rest.drop_last());
        assert(all.last() == rest.last());
        lemma_joined_front(x, rest.drop_last(), sep);
        if rest.len() == 1 {
            assert(joined(rest, sep) == rest[0]);
        } else {
            assert(x + sep + joined(rest.drop_last(), sep) + sep + rest.last() =~= x + sep + (
            joined(rest.drop_last(), sep) + sep + rest.last()));
        }
    }
}

/// What a split is: one piece more than there are separators, no piece
/// holds the separator, and the pieces joined by the separator give the
/// text back.
pub proof fn lemma_split_is_exact(s: Seq<char>, sep: char)
    ensures
        split(s, sep).len() == count(s, sep) + 1,
        forall|k: int| 0 <= k < split(s, sep).len() ==> count(#[trigger] split(s, sep)[k], sep) == 0,
        joined(split(s, sep), seq![sep]) == s,
    decreases s.len(),
{
    lemma_first_where_found(s, is_char(sep));
    lemma_count_by_first(s, sep);
    let i = first_where(s, is_char(sep)) as int;
    if i >= s.len() {
        lemma_count_zero(s, sep);
        assert(split(s, sep)[0] == s);
    } else {
        let head = s.take(i);
        let rest = s.skip(i + 1);
        lemma_split_is_exact(rest, sep);
        assert forall|j: int| 0 <= j < head.len() implies #[trigger] head[j] != sep by {
            assert(head[j] == s[j]);
        }
        lemma_count_zero(head, sep);
        let pieces = split(s, sep);
        assert forall|k: int| 0 <= k < pieces.len() implies count(#[trigger] pieces[k], sep)
            == 0 by {
            if k > 0 {
                assert(pieces[k] == split(rest, sep)[k - 1]);
            }
        }
        lemma_joined_front(head, split(rest, sep), seq![sep]);
        assert(head + seq![sep] + rest =~= s);
    }
}

/// What the words are: none is empty and none holds ASCII whitespace.
pub proof fn lemma_words_are_clean(s: Seq<char>)
    ensures
        forall|k: int|
            0 <= k < words(s).len() ==> (#[trigger] words(s)[k]).len() > 0 && first_where(
                words(s)[k],
                ascii_space(),
            ) == words(s)[k].len(),
    decreases s.len(),
{
    let a = first_where(s, not_ascii_space()) as int;
    lemma_first_where_found(s, not_ascii_space());
    if a < s.len() {
        let t = s.skip(a);
        let b = first_where(t, ascii_space()) as int;
        lemma_first_where_found(t, ascii_space());
        assert(!ascii_space()(t[0]));
        lemma_words_are_clean(t.skip(b));
        let w = t.take(b);
        assert forall|j: int| 0 <= j < w.len() implies !ascii_space()(#[trigger] w[j]) by {
            assert(w[j] == t[j]);
        }
        lemma_first_where_is(w, ascii_space(), b);
        let all = words(s);
        assert forall|k: int| 0 <= k < all.len() implies (#[trigger] all[k]).len() > 0
            && first_where(all[k], ascii_space()) == all[k].len() by {
            if k > 0 {
                assert(all[k] == words(t.skip(b))[k - 1]);
            }
        }
    }
}

/// What trimming gives: a part of the text that neither begins nor ends
/// with whitespace, with nothing but whitespace around it.
pub proof fn lemma_trim_is_exact(s: Seq<char>)
    ensures
        trim(s).len() > 0 ==> !is_space(trim(s)[0]) && !is_space(trim(s).last()),
        exists|a: int, b: int|
            0 <= a <= b <= s.len() && trim(s) == s.subrange(a, b) && (forall|j: int|
                0 <= j < a ==> is_space(#[trigger] s[j])) && (forall|j: int|
                b <= j < s.len() ==> is_space(#[trigger] s[j])),
{
    lemma_first_where_found(s, not_space());
    let a = first_where(s, not_space()) as int;
    let t = trim_start(s);
    lemma_trim_end_is_exact(t);
    let n = trim_end(t).len() as int;
    let b = a + n;
    assert(trim(s) =~= s.subrange(a, b));
    assert forall|j: int| 0 <= j < a implies is_space(#[trigger] s[j]) by {
        assert(!not_space()(s[j]));
    }
    assert forall|j: int| b <= j < s.len() implies is_space(#[trigger] s[j]) by {
        assert(t[j - a] == s[j]);
    }
    if trim(s).len() > 0 {
        assert(trim(s)[0] == s[a]);
        assert(not_space()(s[a]));
    }
}

/// What trimming the end gives: a prefix that does not end with
/// whitespace, with nothing but whitespace after it.
pub proof fn lemma_trim_end_is_exact(s: Seq<char>)
    ensures
        trim_end(s).len() <= s.len(),
        trim_end(s) == s.take(trim_end(s).len() as int),
        trim_end(s).len() > 0 ==> !is_space(trim_end(s).last()),
        forall|j: int| trim_end(s).len() <= j < s.len() ==> is_space(#[trigger] s[j]),
    decreases s.len(),
{
    if s.len() > 0 && is_space(s.last()) {
        let t = s.drop_last();
        lemma_trim_end_is_exact(t);
        let n = trim_end(t).len() as int;
        assert(t.take(n) =~= s.take(n));
        assert forall|j: int| n <= j < s.len() implies is_space(#[trigger] s[j]) by {
            if j < t.len() {
                assert(t[j] == s[j]);
            }
        }
    } else {
        assert(s.take(s.len() as int) =~= s);
    }
}

/// A split gives at least one piece.
pub proof fn lemma_split_nonempty(s: Seq<char>, sep: char)
    ensures
        split(s, sep).len() >= 1,
        split(s, sep)[0] == s.take(first_where(s, is_char(sep)) as int),
{
    lemma_first_where_found(s, is_char(sep));
    let i = first_where(s, is_char(sep)) as int;
    if i >= s.len() {
        assert(s.take(i) == s);
    }
}

/// Counting by the first occurrence: nothing when there is none, else one
/// more than in what follows it.
pub proof fn lemma_count_by_first(s: Seq<char>, c: char)
    ensures
        first_where(s, is_char(c)) <= s.len(),
        count(s, c) == if first_where(s, is_char(c)) >= s.len() {
            0
        } else {
            1 + count(s.skip(first_where(s, is_char(c)) as int + 1), c)
        },
    decreases s.len(),
{
    lemma_first_where_found(s, is_char(c));
    if s.len() == 0 {
    } else if s[0] == c {
    } else {
        let t = s.skip(1);
        lemma_count_by_first(t, c);
        let i = first_where(t, is_char(c)) as int;
        if i < t.len() {
            assert(t.skip(i + 1) == s.skip(i + 2));
        }
    }
}

/// A sequence of digits writes at least what any of its prefixes writes.
pub proof fn lemma_digits_value_grows(s: Seq<char>, k: int)
    requires
        0 <= k <= s.len(),
        all_digits(s),
    ensures
        digits_value(s.take(k)) <= digits_value(s),
    decreases s.len() - k,
{
    if k == s.len() {
        assert(s.take(k) == s);
    } else {
        let t = s.drop_last();
        assert(t.take(k) == s.take(k));
        assert(is_digit(s[s.len() - 1]));
        if k <= t.len() {
            lemma_digits_value_grows(t, k);
        }
    }
}

/// What `first_where` returns: an index within bounds, before which nothing
/// satisfies `p`, and at which, if it is inside `s`, `p` holds.
pub proof fn lemma_first_where_found(s: Seq<char>, p: spec_fn(char) -> bool)
    ensures
        first_where(s, p) <= s.len(),
        forall|j: int| 0 <= j < first_where(s, p) ==> !p(#[trigger] s[j]),
        first_where(s, p) < s.len() ==> p(s[first_where(s, p) as int]),
    decreases s.len(),
{
    if s.len() == 0 || p(s[0]) {
    } else {
        let t = s.skip(1);
        lemma_first_where_found(t, p);
        let r = first_where(s, p);
        assert forall|j: int| 0 <= j < r implies !p(#[trigger] s[j]) by {
            if j > 0 {
                assert(t[j - 1] == s[j]);
            }
        }
        if r < s.len() {
            assert(t[r - 1] == s[r as int]);
        }
    }
}

/// The index that has the properties of `lemma_first_where_found` is the one
/// that `first_where` returns.
pub proof fn lemma_first_where_is(s: Seq<char>, p: spec_fn(char) -> bool, i: int)
    requires
        0 <= i <= s.len(),
        forall|j: int| 0 <= j < i ==> !p(#[trigger] s[j]),
        i < s.len() ==> p(s[i]),
    ensures
        first_where(s, p) == i,
    decreases i,
{
    if i > 0 {
        let t = s.skip(1);
        assert(!p(s[0]));
        assert forall|j: int| 0 <= j < i - 1 implies !p(#[trigger] t[j]) by {
            assert(t[j] == s[j + 1]);
        }
        if i < s.len() {
            assert(t[i - 1] == s[i]);
        }
        lemma_first_where_is(t, p, i - 1);
    }
}

/// Executable form of [`is_space`].
pub fn char_is_space(c: char) -> (r: bool)
    ensures
        r == is_space(c),
{
    let n: u32 = c as u32;
    (0x09 <= n && n <= 0x0D) || n == 0x20 || n == 0x85 || n == 0xA0 || n == 0x1680 || (0x2000 <= n
        && n <= 0x200A) || n == 0x2028 || n == 0x2029 || n == 0x202F || n == 0x205F || n == 0x3000
}

/// Executable form of [`is_ascii_space`].
pub fn char_is_ascii_space(c: char) -> (r: bool)
    ensures
        r == is_ascii_space(c),
{
    c == ' ' || c == '\t' || c == '\n' || c == '\x0C' || c == '\r'
}

/// The characters of `s`, in order.
pub fn chars_of(s: &str) -> (v: Vec<char>)
    ensures
        v@ == s@,
{
    broadcast use vstd::string::axiom_spec_iter, vstd::string::next_postcondition;

    let mut v: Vec<char> = Vec::new();
    let mut it = s.chars();
    assert(v@ + it.remaining() == s@);
    loop
        invariant
            it.obeys_prophetic_iter_laws(),
            it.decrease() is Some,
            v@ + it.remaining() == s@,
        decreases it.decrease()->0,
    {
        let ghost before = it.remaining();
        match it.next() {
            Some(c) => {
                v.push(c);
                assert(before == seq![c] + it.remaining());
            },
            None => {
                assert(v@ + before == v@);
                return v;
            },
        }
    }
}

/// A class of characters that a scan can look for.
#[derive(Clone, Copy, Debug)]
pub enum CharClass {
    /// The given character.
    Is(char),
    /// Whitespace.
    Space,
    /// Anything but whitespace.
    NotSpace,
    /// ASCII whitespace.
    AsciiSpace,
    /// Anything but ASCII whitespace.
    NotAsciiSpace,
    /// A round bracket, opening or closing.
    Paren,
}

impl CharClass {
    /// The predicate that the class stands for.
    pub open spec fn pred(self) -> spec_fn(char) -> bool {
        match self {
            CharClass::Is(c) => is_char(c),
            CharClass::Space => space(),
            CharClass::NotSpace => not_space(),
            CharClass::AsciiSpace => ascii_space(),
            CharClass::NotAsciiSpace => not_ascii_space(),
            CharClass::Paren => is_paren(),
        }
    }

    /// Whether `c` belongs to the class.
    pub fn holds(self, c: char) -> (r: bool)
        ensures
            r == self.pred()(c),
    {
        match self {
            CharClass::Is(x) => c == x,
            CharClass::Space => char_is_space(c),
            CharClass::NotSpace => !char_is_space(c),
            CharClass::AsciiSpace => char_is_ascii_space(c),
            CharClass::NotAsciiSpace => !char_is_ascii_space(c),
            CharClass::Paren => c == '(' || c == ')',
        }
    }
}

/// `String::push` appends one character.
pub assume_specification[ String::push ](s: &mut String, ch: char)
    ensures
        final(s)@ == old(s)@.push(ch),
;

/// A string that holds the characters of `v`.
pub fn string_of(v: &Vec<char>) -> (s: String)
    ensures
        s@ == v@,
{
    let mut s = String::new();
    let mut i: usize = 0;
    while i < v.len()
        invariant
            i <= v.len(),
            s@ == v@.take(i as int),
        decreases v.len() - i,
    {
        s.push(v[i]);
        i += 1;
        assert(v@.take(i as int) == v@.take(i - 1).push(v@[i - 1]));
    }
    assert(v@.take(v.len() as int) == v@);
    s
}

/// The characters of `v` from index `from` up to, not including, `to`.
pub fn slice_of(v: &Vec<char>, from: usize, to: usize) -> (r: Vec<char>)
    requires
        from <= to <= v.len(),
    ensures
        r@ == v@.subrange(from as int, to as int),
{
    let mut r: Vec<char> = Vec::new();
    let mut i: usize = from;
    while i < to
        invariant
            from <= i <= to <= v.len(),
            r@ == v@.subrange(from as int, i as int),
        decreases to - i,
    {
        r.push(v[i]);
        i += 1;
        assert(v@.subrange(from as int, i as int) == v@.subrange(from as int, i - 1).push(
            v@[i - 1],
        ));
    }
    r
}

/// Whether `a` and `b` hold the same characters.
pub fn same(a: &Vec<char>, b: &Vec<char>) -> (r: bool)
    ensures
        r == (a@ == b@),
{
    if a.len() != b.len() {
        return false;
    }
    let mut i: usize = 0;
    while i < a.len()
        invariant
            a.len() == b.len(),
            i <= a.len(),
            a@.take(i as int) == b@.take(i as int),
        decreases a.len() - i,
    {
        if a[i] != b[i] {
            return false;
        }
        i += 1;
        assert(a@.take(i as int) == a@.take(i - 1).push(a@[i - 1]));
        assert(b@.take(i as int) == b@.take(i - 1).push(b@[i - 1]));
    }
    assert(a@.take(a.len() as int) == a@);
    assert(b@.take(b.len() as int) == b@);
    true
}

/// Whether `v` holds exactly the characters of `lit`.
pub fn is_str(v: &Vec<char>, lit: &str) -> (r: bool)
    ensures
        r == (v@ == lit@),
{
    let l = chars_of(lit);
    same(v, &l)
}

/// Index of the first character at or after `from` that belongs to
/// `class`; the length of `v` when there is none.
pub fn find(v: &Vec<char>, from: usize, class: CharClass) -> (r: usize)
    requires
        from <= v.len(),
    ensures
        from <= r <= v.len(),
        r - from == first_where(v@.skip(from as int), class.pred()),
{
    let mut i: usize = from;
    while i < v.len() && !class.holds(v[i])
        invariant
            from <= i <= v.len(),
            forall|j: int| from <= j < i ==> !class.pred()(#[trigger] v@[j]),
        decreases v.len() - i,
    {
        i += 1;
    }
    proof {
        let t = v@.skip(from as int);
        assert forall|j: int| 0 <= j < i - from implies !class.pred()(#[trigger] t[j]) by {
            assert(t[j] == v@[from + j]);
        }
        lemma_first_where_is(t, class.pred(), i - from);
    }
    i
}

/// Executable form of [`trim_start`].
pub fn trimmed_start(v: &Vec<char>) -> (r: Vec<char>)
    ensures
        r@ == trim_start(v@),
{
    let i = find(v, 0, CharClass::NotSpace);
    assert(v@.skip(0) == v@);
    slice_of(v, i, v.len())
}

/// Executable form of [`trim_end`].
pub fn trimmed_end(v: &Vec<char>) -> (r: Vec<char>)
    ensures
        r@ == trim_end(v@),
{
    let mut n: usize = v.len();
    assert(v@.take(n as int) == v@);
    while n > 0 && char_is_space(v[n - 1])
        invariant
            n <= v.len(),
            trim_end(v@) == trim_end(v@.take(n as int)),
        decreases n,
    {
        assert(v@.take(n as int).drop_last() == v@.take(n - 1));
        n -= 1;
    }
    slice_of(v, 0, n)
}

/// Executable form of [`trim`].
pub fn trimmed(v: &Vec<char>) -> (r: Vec<char>)
    ensures
        r@ == trim(v@),
{
    let a = trimmed_start(v);
    trimmed_end(&a)
}

/// Executable form of [`starts_with`].
pub fn has_prefix(v: &Vec<char>, p: &Vec<char>) -> (r: bool)
    ensures
        r == starts_with(v@, p@),
{
    if p.len() > v.len() {
        return false;
    }
    let head = slice_of(v, 0, p.len());
    same(&head, p)
}

/// Executable form of [`ends_with`].
pub fn has_suffix(v: &Vec<char>, p: &Vec<char>) -> (r: bool)
    ensures
        r == ends_with(v@, p@),
{
    if p.len() > v.len() {
        return false;
    }
    let tail = slice_of(v, v.len() - p.len(), v.len());
    same(&tail, p)
}

/// What follows `prefix` in `v`, when `v` begins with it.
pub fn after_prefix(v: &Vec<char>, prefix: &str) -> (r: Option<Vec<char>>)
    ensures
        starts_with(v@, prefix@) ==> r is Some && r->0@ == v@.skip(prefix@.len() as int),
        !starts_with(v@, prefix@) ==> r is None,
{
    let p = chars_of(prefix);
    if has_prefix(v, &p) {
        Some(slice_of(v, p.len(), v.len()))
    } else {
        None
    }
}

/// Executable form of [`split`].
pub fn split_on(v: &Vec<char>, sep: char) -> (r: Vec<Vec<char>>)
    ensures
        views(r@) == split(v@, sep),
{
    let n: usize = v.len();
    let mut out: Vec<Vec<char>> = Vec::new();
    let mut start: usize = 0;
    assert(v@.skip(0) == v@);
    assert(views(out@) + split(v@, sep) == split(v@, sep));
    loop
        invariant
            n == v.len(),
            start <= n,
            views(out@) + split(v@.skip(start as int), sep) == split(v@, sep),
        decreases n - start,
    {
        let ghost t = v@.skip(start as int);
        let ghost before = views(out@);
        let i = find(v, start, CharClass::Is(sep));
        if i >= n {
            let piece = slice_of(v, start, n);
            out.push(piece);
            assert(views(out@) == before + seq![t]);
            return out;
        }
        let piece = slice_of(v, start, i);
        out.push(piece);
        proof {
            assert(t.take(i - start) == v@.subrange(start as int, i as int));
            assert(t.skip(i - start + 1) == v@.skip(i + 1));
            assert(views(out@) == before + seq![t.take(i - start)]);
            assert(before + (seq![t.take(i - start)] + split(v@.skip(i + 1), sep)) == views(out@)
                + split(v@.skip(i + 1), sep));
        }
        start = i + 1;
    }
}

/// Executable form of [`lines`].
pub fn lines_of(v: &Vec<char>) -> (r: Vec<Vec<char>>)
    ensures
        views(r@) == lines(v@),
{
    let n: usize = v.len();
    let mut out: Vec<Vec<char>> = Vec::new();
    let mut start: usize = 0;
    assert(v@.skip(0) == v@);
    assert(views(out@) + lines(v@) == lines(v@));
    while start < n
        invariant
            n == v.len(),
            start <= n,
            views(out@) + lines(v@.skip(start as int)) == lines(v@),
        decreases n - start,
    {
        let ghost t = v@.skip(start as int);
        let ghost before = views(out@);
        let i = find(v, start, CharClass::Is('\n'));
        if i >= n {
            let piece = slice_of(v, start, n);
            out.push(piece);
            assert(views(out@) == before + seq![t]);
            return out;
        }
        let end: usize = if i > start && v[i - 1] == '\r' {
            i - 1
        } else {
            i
        };
        let piece = slice_of(v, start, end);
        out.push(piece);
        proof {
            let whole = t.take(i - start);
            assert(whole == v@.subrange(start as int, i as int));
            assert(chomp_cr(whole) == v@.subrange(start as int, end as int));
            assert(t.skip(i - start + 1) == v@.skip(i + 1));
            assert(views(out@) == before + seq![chomp_cr(whole)]);
            assert(before + (seq![chomp_cr(whole)] + lines(v@.skip(i + 1))) == views(out@) + lines(
                v@.skip(i + 1),
            ));
        }
        start = i + 1;
    }
    assert(views(out@) + Seq::<Seq<char>>::empty() == views(out@));
    out
}

/// Executable form of [`words`].
pub fn words_of(v: &Vec<char>) -> (r: Vec<Vec<char>>)
    ensures
        views(r@) == words(v@),
{
    let n: usize = v.len();
    let mut out: Vec<Vec<char>> = Vec::new();
    let mut start: usize = 0;
    assert(v@.skip(0) == v@);
    assert(views(out@) + words(v@) == words(v@));
    loop
        invariant
            n == v.len(),
            start <= n,
            views(out@) + words(v@.skip(start as int)) == words(v@),
        decreases n - start,
    {
        let ghost s = v@.skip(start as int);
        let ghost before = views(out@);
        let a = find(v, start, CharClass::NotAsciiSpace);
        if a >= n {
            assert(views(out@) + Seq::<Seq<char>>::empty() == views(out@));
            return out;
        }
        let ghost t = s.skip(a - start);
        assert(t == v@.skip(a as int));
        let b = find(v, a, CharClass::AsciiSpace);
        proof {
            lemma_first_where_found(s, not_ascii_space());
            lemma_first_where_found(t, ascii_space());
            assert(t[0] == s[a - start]);
            assert(!ascii_space()(t[0]));
        }
        let piece = slice_of(v, a, b);
        out.push(piece);
        proof {
            assert(t.take(b - a) == v@.subrange(a as int, b as int));
            assert(t.skip(b - a) == v@.skip(b as int));
            assert(views(out@) == before + seq![t.take(b - a)]);
            assert(before + (seq![t.take(b - a)] + words(v@.skip(b as int))) == views(out@) + words(
                v@.skip(b as int),
            ));
        }
        start = b;
    }
}

/// Executable form of [`without`].
pub fn removed(v: &Vec<char>, class: CharClass) -> (r: Vec<char>)
    ensures
        r@ == without(v@, class.pred()),
{
    let mut out: Vec<char> = Vec::new();
    let mut i: usize = 0;
    while i < v.len()
        invariant
            i <= v.len(),
            out@ == without(v@.take(i as int), class.pred()),
        decreases v.len() - i,
    {
        assert(v@.take(i + 1).drop_last() == v@.take(i as int));
        if !class.holds(v[i]) {
            out.push(v[i]);
        }
        i += 1;
    }
    assert(v@.take(v.len() as int) == v@);
    out
}

/// Executable form of [`last_index`].
pub fn find_last(v: &Vec<char>, c: char) -> (r: Option<usize>)
    ensures
        match r {
            Some(i) => i == last_index(v@, c),
            None => last_index(v@, c) == -1,
        },
{
    let mut n: usize = v.len();
    assert(v@.take(n as int) == v@);
    while n > 0
        invariant
            n <= v.len(),
            last_index(v@, c) == last_index(v@.take(n as int), c),
        decreases n,
    {
        if v[n - 1] == c {
            return Some(n - 1);
        }
        assert(v@.take(n as int).drop_last() == v@.take(n - 1));
        n -= 1;
    }
    None
}

/// Executable form of [`parse_u64`].
pub fn parsed_u64(v: &Vec<char>) -> (r: Option<u64>)
    ensures
        r == parse_u64(v@),
{
    let n: usize = v.len();
    let from: usize = if n > 0 && v[0] == '+' {
        1
    } else {
        0
    };
    let ghost d = v@.skip(from as int);
    assert(v@.skip(0) == v@);
    assert(d == unsigned_part(v@));
    if from >= n {
        return None;
    }
    let mut acc: u64 = 0;
    let mut i: usize = from;
    assert(d.take(0) == Seq::<char>::empty());
    while i < n
        invariant
            n == v.len(),
            from <= i <= n,
            d == v@.skip(from as int),
            d == unsigned_part(v@),
            forall|j: int| 0 <= j < i - from ==> is_digit(#[trigger] d[j]),
            acc == digits_value(d.take(i - from)),
        decreases n - i,
    {
        let c = v[i];
        assert(d[i - from] == c);
        if c < '0' || c > '9' {
            assert(!is_digit(d[i - from]));
            return None;
        }
        let digit: u64 = (c as u32 - '0' as u32) as u64;
        assert(d.take(i - from + 1).drop_last() == d.take(i - from));
        let ghost next = digits_value(d.take(i - from + 1));
        assert(next == acc * 10 + digit);
        if acc > (u64::MAX - digit) / 10 {
            proof {
                assert(next > u64::MAX);
                if all_digits(d) {
                    lemma_digits_value_grows(d, i - from + 1);
                }
            }
            return None;
        }
        acc = acc * 10 + digit;
        i += 1;
    }
    assert(d.take(n - from) == d);
    Some(acc)
}

/// Executable form of [`cut_first`].
pub fn cut_at_first(v: &Vec<char>, class: CharClass) -> (r: Option<(Vec<char>, Vec<char>)>)
    ensures
        match r {
            Some((a, b)) => cut_first(v@, class.pred()) == Some((a@, b@)),
            None => cut_first(v@, class.pred()) is None,
        },
{
    assert(v@.skip(0) == v@);
    let i = find(v, 0, class);
    if i < v.len() {
        Some((slice_of(v, 0, i), slice_of(v, i + 1, v.len())))
    } else {
        None
    }
}

/// Executable form of [`cut_once`].
pub fn cut_at_only(v: &Vec<char>, c: char) -> (r: Option<(Vec<char>, Vec<char>)>)
    ensures
        match r {
            Some((a, b)) => cut_once(v@, c) == Some((a@, b@)),
            None => cut_once(v@, c) is None,
        },
{
    assert(v@.skip(0) == v@);
    let i = find(v, 0, CharClass::Is(c));
    proof {
        lemma_count_by_first(v@, c);
    }
    if i >= v.len() {
        return None;
    }
    let j = find(v, i + 1, CharClass::Is(c));
    proof {
        lemma_count_by_first(v@.skip(i + 1), c);
    }
    if j < v.len() {
        return None;
    }
    Some((slice_of(v, 0, i), slice_of(v, i + 1, v.len())))
}

/// Executable form of [`cut_last`].
pub fn cut_at_last(v: &Vec<char>, c: char) -> (r: Option<(Vec<char>, Vec<char>)>)
    ensures
        match r {
            Some((a, b)) => cut_last(v@, c) == Some((a@, b@)),
            None => cut_last(v@, c) is None,
        },
{
    match find_last(v, c) {
        Some(i) => {
            proof {
                lemma_last_index_bound(v@, c);
            }
            Some((slice_of(v, 0, i), slice_of(v, i + 1, v.len())))
        },
        None => None,
    }
}

/// Number of bytes that the UTF-8 encoding of `c` takes.
pub fn char_utf8_len(c: char) -> (r: usize)
    ensures
        r == utf8_len(c),
{
    let n: u32 = c as u32;
    if n < 0x80 {
        1
    } else if n < 0x800 {
        2
    } else if n < 0x10000 {
        3
    } else {
        4
    }
}

/// `v` without the leading characters that cover the first `bytes` bytes
/// of its UTF-8 encoding.
pub fn skip_bytes(v: &Vec<char>, bytes: usize) -> (r: Vec<char>)
    ensures
        r@ == v@.skip(chars_covering(v@, bytes as nat) as int),
{
    let n: usize = v.len();
    let mut i: usize = 0;
    let mut left: usize = bytes;
    assert(v@.skip(0) == v@);
    while i < n && left > 0
        invariant
            n == v.len(),
            i <= n,
            chars_covering(v@, bytes as nat) == i + chars_covering(v@.skip(i as int), left as nat),
        decreases n - i,
    {
        let w = char_utf8_len(v[i]);
        assert(v@.skip(i as int)[0] == v@[i as int]);
        assert(v@.skip(i as int).skip(1) == v@.skip(i + 1));
        left = if w >= left {
            0
        } else {
            left - w
        };
        i += 1;
    }
    slice_of(v, i, n)
}

/// The characters of `a` followed by those of `b`.
pub fn followed_by(a: &Vec<char>, b: &Vec<char>) -> (r: Vec<char>)
    ensures
        r@ == a@ + b@,
{
    let mut out: Vec<char> = slice_of(a, 0, a.len());
    assert(out@ == a@);
    let mut i: usize = 0;
    while i < b.len()
        invariant
            i <= b.len(),
            out@ == a@ + b@.take(i as int),
        decreases b.len() - i,
    {
        out.push(b[i]);
        i += 1;
        assert(b@.take(i as int) == b@.take(i - 1).push(b@[i - 1]));
    }
    assert(b@.take(b.len() as int) == b@);
    out
}

/// `itertools::join` writes the items one after the other, in order, with
/// `sep` between neighbours; a string displays as its own characters.
#[verifier::external_body]
fn join_strings(items: &Vec<String>, sep: &str) -> (r: String)
    ensures
        r@ == joined(string_views(items@), sep@),
{
    itertools::join(items, sep)
}

/// The items of `items` from index `from` on, joined by `sep`.
pub fn join(items: &Vec<Vec<char>>, from: usize, sep: &str) -> (r: String)
    requires
        from <= items.len(),
    ensures
        r@ == joined(views(items@).skip(from as int), sep@),
{
    let mut strings: Vec<String> = Vec::new();
    let mut i: usize = from;
    assert(string_views(strings@) == views(items@).subrange(from as int, i as int));
    while i < items.len()
        invariant
            from <= i <= items.len(),
            string_views(strings@) == views(items@).subrange(from as int, i as int),
        decreases items.len() - i,
    {
        let ghost before = string_views(strings@);
        strings.push(string_of(&items[i]));
        i += 1;
        assert(string_views(strings@) == before.push(items@[i - 1]@));
        assert(views(items@).subrange(from as int, i as int) == views(items@).subrange(
            from as int,
            i - 1,
        ).push(items@[i - 1]@));
    }
    assert(views(items@).subrange(from as int, items.len() as int) == views(items@).skip(
        from as int,
    ));
    join_strings(&strings, sep)
}

} // verus!
