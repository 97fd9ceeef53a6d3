//! Text primitives shared by the parsers: character classes, splitting,
//! trimming, substring search and joining, each specified over `Seq<char>`.

use vstd::prelude::*;
use vstd::string::*;

verus! {

/// The characters with the Unicode `White_Space` property.
pub open spec fn is_space(c: char) -> bool {
    let u = c as u32;
    ||| 0x09 <= u <= 0x0D
    ||| u == 0x20
    ||| u == 0x85
    ||| u == 0xA0
    ||| u == 0x1680
    ||| 0x2000 <= u <= 0x200A
    ||| u == 0x2028
    ||| u == 0x2029
    ||| u == 0x202F
    ||| u == 0x205F
    ||| u == 0x3000
}

/// The ASCII decimal digits `'0'` to `'9'`.
pub open spec fn is_digit(c: char) -> bool {
    '0' <= c <= '9'
}

/// Whether `c` is a whitespace character.
pub fn is_whitespace(c: char) -> (b: bool)
    ensures
        b == is_space(c),
{
    let u: u32 = c as u32;
    (0x09 <= u && u <= 0x0D) || u == 0x20 || u == 0x85 || u == 0xA0 || u == 0x1680 || (0x2000 <= u
        && u <= 0x200A) || u == 0x2028 || u == 0x2029 || u == 0x202F || u == 0x205F || u == 0x3000
}

/// Whether `c` is an ASCII decimal digit.
pub fn is_ascii_digit(c: char) -> (b: bool)
    ensures
        b == is_digit(c),
{
    '0' <= c && c <= '9'
}

/// What separates the pieces of a text: one given character, or any
/// whitespace character.
#[derive(Clone, Copy, Debug)]
pub enum Separator {
    Char(char),
    Whitespace,
}

impl Separator {
    /// Whether `c` separates.
    pub open spec fn matches(self, c: char) -> bool {
        match self {
            Separator::Char(x) => c == x,
            Separator::Whitespace => is_space(c),
        }
    }

    /// Whether `c` separates.
    pub fn is_match(&self, c: char) -> (b: bool)
        ensures
            b == self.matches(c),
    {
        match self {
            Separator::Char(x) => c == *x,
            Separator::Whitespace => is_whitespace(c),
        }
    }
}

/// The pieces of `s` between separators, in order. Reading `s` from left to
/// right, every separator closes the current piece and opens a new, empty
/// one; every other character extends the current piece. A text with `k`
/// separators therefore has `k + 1` pieces, some of which may be empty.
pub open spec fn split(s: Seq<char>, sep: Separator) -> Seq<Seq<char>>
    decreases s.len(),
{
    if s.len() == 0 {
        seq![Seq::<char>::empty()]
    } else {
        let before = split(s.drop_last(), sep);
        if sep.matches(s.last()) {
            before.push(Seq::<char>::empty())
        } else {
            before.drop_last().push(before.last().push(s.last()))
        }
    }
}

/// A text always has at least one piece.
pub proof fn lemma_split_nonempty(s: Seq<char>, sep: Separator)
    ensures
        split(s, sep).len() >= 1,
    decreases s.len(),
{
    if s.len() > 0 {
        lemma_split_nonempty(s.drop_last(), sep);
    }
}

/// Whether no character of `s` is a separator.
pub open spec fn free_of(s: Seq<char>, sep: Separator) -> bool {
    forall|k: int| 0 <= k < s.len() ==> !sep.matches(#[trigger] s[k])
}

/// A text without separators is its own single piece.
pub proof fn lemma_split_whole(s: Seq<char>, sep: Separator)
    requires
        free_of(s, sep),
    ensures
        split(s, sep) == seq![s],
    decreases s.len(),
{
    if s.len() > 0 {
        lemma_split_whole(s.drop_last(), sep);
        assert(s.drop_last().push(s.last()) == s);
        assert(seq![s.drop_last()].drop_last().push(s) == seq![s]);
    } else {
        assert(s == Seq::<char>::empty());
    }
}

/// The pieces of a text around one of its separators are the pieces before
/// it followed by the pieces after it.
pub proof fn lemma_split_around(a: Seq<char>, c: char, b: Seq<char>, sep: Separator)
    requires
        sep.matches(c),
    ensures
        split(a + seq![c] + b, sep) == split(a, sep) + split(b, sep),
    decreases b.len(),
{
    let whole = a + seq![c] + b;
    if b.len() == 0 {
        assert(whole.drop_last() == a);
        assert(split(b, sep) == seq![Seq::<char>::empty()]);
        assert(split(a, sep).push(Seq::<char>::empty()) == split(a, sep) + split(b, sep));
    } else {
        let front = split(a, sep);
        let back = split(b.drop_last(), sep);
        lemma_split_around(a, c, b.drop_last(), sep);
        lemma_split_nonempty(b.drop_last(), sep);
        assert(whole.drop_last() == a + seq![c] + b.drop_last());
        assert(whole.last() == b.last());
        if sep.matches(b.last()) {
            assert((front + back).push(Seq::<char>::empty()) == front + back.push(
                Seq::<char>::empty(),
            ));
        } else {
            let grown = back.last().push(b.last());
            assert((front + back).last() == back.last());
            assert((front + back).drop_last() == front + back.drop_last());
            assert((front + back.drop_last()).push(grown) == front + back.drop_last().push(grown));
        }
    }
}

/// Collects the characters of `s` into a vector with constant-time indexing.
pub fn chars_of(s: &str) -> (v: Vec<char>)
    ensures
        v@ == s@,
{
    let mut v: Vec<char> = Vec::new();
    for c in it: s.chars()
        invariant
            it.seq() == s@,
            v@ == s@.take(it.index() as int),
    {
        v.push(c);
    }
    v
}

/// Splits `s` at every occurrence of `sep`.
pub fn split_on(s: &str, sep: Separator) -> (pieces: Vec<String>)
    ensures
        pieces.deep_view() == split(s@, sep),
        pieces.len() >= 1,
{
    let chars = chars_of(s);
    let n = chars.len();
    let mut pieces: Vec<String> = Vec::new();
    let mut start: usize = 0;
    let mut i: usize = 0;
    assert(pieces.deep_view().push(s@.subrange(0, 0)) =~~= seq![Seq::<char>::empty()]);
    while i < n
        invariant
            chars@ == s@,
            n == chars.len(),
            start <= i <= n,
            pieces.deep_view().push(s@.subrange(start as int, i as int)) == split(
                s@.take(i as int),
                sep,
            ),
        decreases n - i,
    {
        let ghost done = pieces.deep_view();
        let ghost current = s@.subrange(start as int, i as int);
        let ghost prefix = s@.take(i as int + 1);
        assert(prefix.drop_last() == s@.take(i as int));
        assert(prefix.last() == s@[i as int]);
        if sep.is_match(chars[i]) {
            let piece = s.substring_char(start, i).to_owned();
            pieces.push(piece);
            start = i + 1;
            assert(pieces.deep_view() == done.push(current));
            assert(s@.subrange(start as int, start as int) == Seq::<char>::empty());
        } else {
            assert(s@.subrange(start as int, i as int + 1) == current.push(s@[i as int]));
            assert(done.push(current).drop_last() == done);
        }
        i += 1;
    }
    assert(s@.take(n as int) == s@);
    let ghost done = pieces.deep_view();
    let last = s.substring_char(start, n).to_owned();
    pieces.push(last);
    assert(pieces.deep_view() == done.push(s@.subrange(start as int, n as int)));
    pieces
}

/// The words of `s`: its pieces between whitespace characters, without the
/// empty ones. A run of whitespace thus counts as one separator, and
/// whitespace at either end yields no word.
pub open spec fn tokens(s: Seq<char>) -> Seq<Seq<char>> {
    split(s, Separator::Whitespace).filter(nonempty())
}

/// The predicate that holds of the pieces with at least one character.
pub open spec fn nonempty() -> spec_fn(Seq<char>) -> bool {
    |piece: Seq<char>| piece.len() > 0
}

/// Filtering a sequence that ends in `x` keeps or drops `x` and filters the rest.
pub proof fn lemma_filter_push<A>(s: Seq<A>, x: A, pred: spec_fn(A) -> bool)
    ensures
        s.push(x).filter(pred) == (if pred(x) {
            s.filter(pred).push(x)
        } else {
            s.filter(pred)
        }),
{
    reveal(Seq::filter);
    assert(s.push(x).drop_last() == s);
}

/// Splits `s` into its words.
pub fn split_whitespace(s: &str) -> (words: Vec<String>)
    ensures
        words.deep_view() == tokens(s@),
{
    let chars = chars_of(s);
    let n = chars.len();
    let mut words: Vec<String> = Vec::new();
    let mut start: usize = 0;
    let mut i: usize = 0;
    proof {
        reveal(Seq::filter);
        assert(s@.subrange(0, 0) == Seq::<char>::empty());
        assert(words.deep_view() == Seq::<Seq<char>>::empty());
        assert(seq![Seq::<char>::empty()].drop_last() == Seq::<Seq<char>>::empty());
    }
    while i < n
        invariant
            chars@ == s@,
            n == chars.len(),
            start <= i <= n,
            split(s@.take(i as int), Separator::Whitespace).len() > 0,
            split(s@.take(i as int), Separator::Whitespace).last() == s@.subrange(
                start as int,
                i as int,
            ),
            words.deep_view() == split(s@.take(i as int), Separator::Whitespace).drop_last().filter(
                nonempty(),
            ),
        decreases n - i,
    {
        let ghost before = split(s@.take(i as int), Separator::Whitespace);
        let ghost current = s@.subrange(start as int, i as int);
        let ghost prefix = s@.take(i as int + 1);
        assert(prefix.drop_last() == s@.take(i as int));
        assert(prefix.last() == s@[i as int]);
        assert(before == before.drop_last().push(current));
        if is_whitespace(chars[i]) {
            let ghost kept = words.deep_view();
            proof {
                lemma_filter_push(before.drop_last(), current, nonempty());
            }
            if start < i {
                let word = s.substring_char(start, i).to_owned();
                words.push(word);
                assert(words.deep_view() == kept.push(current));
            }
            start = i + 1;
            assert(before.push(Seq::<char>::empty()).drop_last() == before);
            assert(s@.subrange(start as int, start as int) == Seq::<char>::empty());
        } else {
            assert(s@.subrange(start as int, i as int + 1) == current.push(s@[i as int]));
            assert(before.drop_last().push(current.push(s@[i as int])).drop_last()
                == before.drop_last());
        }
        i += 1;
    }
    assert(s@.take(n as int) == s@);
    let ghost pieces = split(s@, Separator::Whitespace);
    let ghost current = s@.subrange(start as int, n as int);
    let ghost kept = words.deep_view();
    proof {
        assert(pieces == pieces.drop_last().push(current));
        lemma_filter_push(pieces.drop_last(), current, nonempty());
    }
    if start < n {
        let word = s.substring_char(start, n).to_owned();
        words.push(word);
        assert(words.deep_view() == kept.push(current));
    }
    words
}

/// `s` without the whitespace at its two ends.
pub open spec fn trimmed(s: Seq<char>) -> Seq<char>
    decreases s.len(),
{
    if s.len() > 0 && is_space(s.first()) {
        trimmed(s.drop_first())
    } else if s.len() > 0 && is_space(s.last()) {
        trimmed(s.drop_last())
    } else {
        s
    }
}

/// Trimming ignores a leading run of whitespace.
proof fn lemma_trimmed_skip(s: Seq<char>, a: int)
    requires
        0 <= a <= s.len(),
        forall|k: int| 0 <= k < a ==> is_space(#[trigger] s[k]),
    ensures
        trimmed(s) == trimmed(s.skip(a)),
    decreases a,
{
    if a == 0 {
        assert(s.skip(0) == s);
    } else {
        assert(is_space(s[0]));
        assert(s.drop_first().skip(a - 1) == s.skip(a));
        lemma_trimmed_skip(s.drop_first(), a - 1);
    }
}

/// Trimming a text that does not start with whitespace ignores a trailing
/// run of whitespace.
proof fn lemma_trimmed_take(s: Seq<char>, b: int)
    requires
        0 <= b <= s.len(),
        s.len() > 0 ==> !is_space(s.first()),
        forall|k: int| b <= k < s.len() ==> is_space(#[trigger] s[k]),
    ensures
        trimmed(s) == trimmed(s.take(b)),
    decreases s.len() - b,
{
    if b == s.len() {
        assert(s.take(b) == s);
    } else {
        assert(is_space(s[s.len() - 1]));
        assert(b > 0);
        assert(s.drop_last().take(b) == s.take(b));
        lemma_trimmed_take(s.drop_last(), b);
    }
}

/// Returns the part of `s` between its leading and its trailing whitespace.
pub fn trim<'a>(s: &'a str) -> (r: &'a str)
    ensures
        r@ == trimmed(s@),
{
    let chars = chars_of(s);
    let n = chars.len();
    let mut a: usize = 0;
    while a < n && is_whitespace(chars[a])
        invariant
            chars@ == s@,
            n == chars.len(),
            a <= n,
            forall|k: int| 0 <= k < a ==> is_space(#[trigger] s@[k]),
        decreases n - a,
    {
        a += 1;
    }
    let mut b: usize = n;
    while b > a && is_whitespace(chars[b - 1])
        invariant
            chars@ == s@,
            n == chars.len(),
            a <= b <= n,
            forall|k: int| b <= k < n ==> is_space(#[trigger] s@[k]),
        decreases b,
    {
        b -= 1;
    }
    proof {
        let rest = s@.skip(a as int);
        lemma_trimmed_skip(s@, a as int);
        assert(rest.take(b - a) == s@.subrange(a as int, b as int));
        lemma_trimmed_take(rest, b - a);
    }
    s.substring_char(a, b)
}

/// Whether `needle` occurs in `hay` as a contiguous run of characters. The
/// empty text occurs in every text.
pub open spec fn occurs_in(needle: Seq<char>, hay: Seq<char>) -> bool {
    exists|i: int| occurs_at(needle, hay, i)
}

/// Whether `needle` occurs in `hay` starting at index `i`.
pub open spec fn occurs_at(needle: Seq<char>, hay: Seq<char>, i: int) -> bool {
    0 <= i && i + needle.len() <= hay.len() && hay.subrange(i, i + needle.len()) == needle
}

/// Whether `needle` occurs somewhere in `hay`.
pub fn contains(hay: &str, needle: &str) -> (found: bool)
    ensures
        found == occurs_in(needle@, hay@),
{
    let h = chars_of(hay);
    let m = chars_of(needle);
    if m.len() > h.len() {
        return false;
    }
    let last = h.len() - m.len();
    let mut i: usize = 0;
    while i <= last
        invariant
            h@ == hay@,
            m@ == needle@,
            m.len() <= h.len(),
            last == h.len() - m.len(),
            i <= last + 1,
            forall|k: int| 0 <= k < i ==> !occurs_at(needle@, hay@, k),
        decreases last + 1 - i,
    {
        let mut j: usize = 0;
        while j < m.len() && h[i + j] == m[j]
            invariant
                h@ == hay@,
                m@ == needle@,
                i + m.len() <= h.len(),
                j <= m.len(),
                forall|t: int| 0 <= t < j ==> hay@[i + t] == needle@[t],
            decreases m.len() - j,
        {
            j += 1;
        }
        if j == m.len() {
            assert(hay@.subrange(i as int, i + needle@.len()) == needle@);
            assert(occurs_at(needle@, hay@, i as int));
            return true;
        }
        assert(hay@.subrange(i as int, i + needle@.len())[j as int] != needle@[j as int]);
        i += 1;
    }
    false
}

/// The lowercase form of a text under the Unicode case mapping that
/// `str::to_lowercase` applies. The mapping is fixed by the Unicode tables
/// and is not restated here.
pub uninterp spec fn lowercase_of(s: Seq<char>) -> Seq<char>;

/// `str::to_lowercase` of the standard library: returns the lowercase
/// equivalent of the text as a new `String`. The result depends on the
/// characters of the text alone; the contract gives it the name
/// [`lowercase_of`] and claims nothing else of it.
pub assume_specification[ str::to_lowercase ](s: &str) -> (r: String)
    ensures
        r@ == lowercase_of(s@),
;

/// The texts of `parts` in order, with `sep` between each two neighbours.
pub open spec fn joined(parts: Seq<Seq<char>>, sep: Seq<char>) -> Seq<char>
    decreases parts.len(),
{
    if parts.len() == 0 {
        Seq::<char>::empty()
    } else if parts.len() == 1 {
        parts[0]
    } else {
        joined(parts.drop_last(), sep) + sep + parts.last()
    }
}

/// Concatenates `parts`, putting `sep` between each two neighbours.
pub fn join(parts: &Vec<String>, sep: &str) -> (r: String)
    ensures
        r@ == joined(parts.deep_view(), sep@),
{
    let mut r = String::new();
    let mut i: usize = 0;
    while i < parts.len()
        invariant
            i <= parts.len(),
            r@ == joined(parts.deep_view().take(i as int), sep@),
        decreases parts.len() - i,
    {
        let ghost next = parts.deep_view().take(i as int + 1);
        assert(next.drop_last() == parts.deep_view().take(i as int));
        assert(next.last() == parts[i as int]@);
        if i > 0 {
            r.append(sep);
        }
        r.append(parts[i].as_str());
        i += 1;
    }
    assert(parts.deep_view().take(parts.len() as int) == parts.deep_view());
    r
}

/// Joining the pieces of a text with the separating character gives the
/// text back.
pub proof fn lemma_join_split(s: Seq<char>, c: char)
    ensures
        joined(split(s, Separator::Char(c)), seq![c]) == s,
    decreases s.len(),
{
    let sep = Separator::Char(c);
    if s.len() == 0 {
        assert(joined(seq![Seq::<char>::empty()], seq![c]) == s);
    } else {
        let before = split(s.drop_last(), sep);
        lemma_join_split(s.drop_last(), c);
        lemma_split_nonempty(s.drop_last(), sep);
        assert(s.drop_last().push(s.last()) == s);
        if s.last() == c {
            let after = before.push(Seq::<char>::empty());
            assert(after.drop_last() == before);
            assert(joined(after, seq![c]) == joined(before, seq![c]) + seq![c]
                + Seq::<char>::empty());
            assert(joined(after, seq![c]) == s);
        } else {
            let grown = before.last().push(s.last());
            let after = before.drop_last().push(grown);
            assert(after.drop_last() == before.drop_last());
            assert(after.last() == grown);
            if before.len() == 1 {
                assert(joined(after, seq![c]) == grown);
                assert(joined(before, seq![c]) == before.last());
            } else {
                assert(joined(after, seq![c]) == joined(before.drop_last(), seq![c]) + seq![c]
                    + grown);
                assert(joined(before, seq![c]) == joined(before.drop_last(), seq![c]) + seq![c]
                    + before.last());
            }
            assert(joined(after, seq![c]) == joined(before, seq![c]).push(s.last()));
        }
    }
}

} // verus!
