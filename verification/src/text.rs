//! Text handling over sequences of characters.
//!
//! A `str` or `String` is read here by its view, a `Seq<char>`. The functions
//! search, cut, and rewrite text; each contract gives the result as a sequence.

use vstd::prelude::*;

verus! {

/// `String::push` appends one character behind what the string already holds.
pub assume_specification[ String::push ](s: &mut String, c: char)
    ensures
        final(s)@ == old(s)@.push(c),
;

/// The texts that a list of string slices holds, in order.
pub open spec fn texts(parts: Seq<&str>) -> Seq<Seq<char>> {
    parts.map_values(|part: &str| part@)
}

/// The texts that a list of strings holds, in order.
pub open spec fn string_texts(parts: Seq<String>) -> Seq<Seq<char>> {
    parts.map_values(|part: String| part@)
}

/// The text inside an optional string.
pub open spec fn opt_text(value: Option<String>) -> Option<Seq<char>> {
    match value {
        Some(inner) => Some(inner@),
        None => None,
    }
}

/// A copy of a list of texts.
pub fn copy_texts(parts: &Vec<String>) -> (r: Vec<String>)
    ensures
        r@ == parts@,
{
    let mut out: Vec<String> = Vec::new();
    let mut i: usize = 0;
    while i < parts.len()
        invariant
            i <= parts@.len(),
            out@ == parts@.take(i as int),
        decreases parts@.len() - i,
    {
        out.push(parts[i].clone());
        i = i + 1;
        assert(out@ =~= parts@.take(i as int));
    }
    assert(parts@.take(i as int) =~= parts@);
    out
}

/// The characters of a text, as a vector.
pub fn chars_of(s: &str) -> (r: Vec<char>)
    ensures
        r@ == s@,
{
    let mut out: Vec<char> = Vec::new();
    for c in it: s.chars()
        invariant
            out@ == it.seq().take(it.index() as int),
            it.seq() == s@,
    {
        out.push(c);
    }
    out
}

/// The text that a range of characters spells.
pub fn spell(chars: &Vec<char>, from: usize, to: usize) -> (r: String)
    requires
        from <= to <= chars@.len(),
    ensures
        r@ == chars@.subrange(from as int, to as int),
{
    let mut out = String::new();
    let mut i: usize = from;
    while i < to
        invariant
            from <= i <= to <= chars@.len(),
            out@ == chars@.subrange(from as int, i as int),
        decreases to - i,
    {
        out.push(chars[i]);
        assert(chars@.subrange(from as int, i as int).push(chars@[i as int])
            == chars@.subrange(from as int, i + 1));
        i = i + 1;
    }
    out
}

// ---------------------------------------------------------------------------
// Equality, prefixes, and search
// ---------------------------------------------------------------------------

/// `needle` stands in `hay` with its first character at position `at`.
pub open spec fn stands_at(hay: Seq<char>, needle: Seq<char>, at: int) -> bool {
    &&& 0 <= at <= hay.len() - needle.len()
    &&& hay.subrange(at, at + needle.len()) == needle
}

/// `needle` stands somewhere in `hay`.
pub open spec fn occurs(hay: Seq<char>, needle: Seq<char>) -> bool {
    exists|at: int| stands_at(hay, needle, at)
}

fn stands_at_in(hay: &Vec<char>, needle: &Vec<char>, at: usize) -> (r: bool)
    ensures
        r == stands_at(hay@, needle@, at as int),
{
    if needle.len() > hay.len() || at > hay.len() - needle.len() {
        return false;
    }
    let total: usize = hay.len();
    let mut i: usize = 0;
    while i < needle.len()
        invariant
            i <= needle@.len(),
            total == hay@.len(),
            at + needle@.len() <= total,
            forall|k: int| 0 <= k < i ==> hay@[at + k] == needle@[k],
        decreases needle@.len() - i,
    {
        if hay[at + i] != needle[i] {
            assert(hay@.subrange(at as int, at + needle@.len())[i as int] == hay@[at + i]);
            return false;
        }
        i = i + 1;
    }
    assert(hay@.subrange(at as int, at + needle@.len()) =~= needle@);
    true
}

/// Whether two texts are the same.
pub fn same_text(a: &str, b: &str) -> (r: bool)
    ensures
        r == (a@ == b@),
{
    let x = chars_of(a);
    let y = chars_of(b);
    if x.len() != y.len() {
        return false;
    }
    let r = stands_at_in(&x, &y, 0);
    assert(x@.subrange(0, x@.len() as int) =~= x@);
    r
}

/// Whether a text begins with `prefix`.
pub fn starts_with(s: &str, prefix: &str) -> (r: bool)
    ensures
        r == prefix@.is_prefix_of(s@),
{
    let x = chars_of(s);
    let y = chars_of(prefix);
    let r = stands_at_in(&x, &y, 0);
    proof {
        if y@.len() <= x@.len() {
            assert(x@.subrange(0, y@.len() as int) =~= x@.take(y@.len() as int));
        }
    }
    r
}

/// What follows `prefix` in a text that begins with it.
pub fn strip_prefix<'a>(s: &'a str, prefix: &str) -> (r: Option<&'a str>)
    ensures
        r is Some <==> prefix@.is_prefix_of(s@),
        r matches Some(rest) ==> rest@ == s@.skip(prefix@.len() as int),
{
    if starts_with(s, prefix) {
        let skip: usize = prefix.unicode_len();
        let total: usize = s.unicode_len();
        let rest = s.substring_char(skip, total);
        assert(s@.subrange(skip as int, total as int) =~= s@.skip(skip as int));
        Some(rest)
    } else {
        None
    }
}

/// Whether `needle` stands somewhere in `hay`.
pub fn contains(hay: &str, needle: &str) -> (r: bool)
    ensures
        r == occurs(hay@, needle@),
{
    let x = chars_of(hay);
    let y = chars_of(needle);
    if y.len() > x.len() {
        return false;
    }
    let last: usize = x.len() - y.len();
    let mut at: usize = 0;
    while at <= last
        invariant
            x@ == hay@,
            y@ == needle@,
            last == x@.len() - y@.len(),
            at <= last + 1,
            forall|k: int| 0 <= k < at ==> !stands_at(hay@, needle@, k),
        decreases last + 1 - at,
    {
        if stands_at_in(&x, &y, at) {
            assert(stands_at(hay@, needle@, at as int));
            return true;
        }
        if at == last {
            assert forall|k: int| !stands_at(hay@, needle@, k) by {
                assert(k < 0 || k > last || k == last || k < at);
            }
            return false;
        }
        at = at + 1;
    }
    false
}

/// Whether the character `c` stands somewhere in a text.
pub fn contains_char(s: &str, c: char) -> (r: bool)
    ensures
        r == s@.contains(c),
{
    let x = chars_of(s);
    let mut i: usize = 0;
    while i < x.len()
        invariant
            x@ == s@,
            i <= x@.len(),
            forall|k: int| 0 <= k < i ==> x@[k] != c,
        decreases x@.len() - i,
    {
        if x[i] == c {
            return true;
        }
        i = i + 1;
    }
    false
}

/// Every text contains the empty text, and itself.
pub proof fn lemma_occurs_trivial(s: Seq<char>)
    ensures
        occurs(s, Seq::empty()),
        occurs(s, s),
{
    assert(s.subrange(0, 0) =~= Seq::<char>::empty());
    assert(stands_at(s, Seq::empty(), 0));
    assert(s.subrange(0, s.len() as int) =~= s);
    assert(stands_at(s, s, 0));
}

// ---------------------------------------------------------------------------
// Order
// ---------------------------------------------------------------------------

/// Lexicographic order by code point, the order of `str`.
pub open spec fn text_lt(a: Seq<char>, b: Seq<char>) -> bool
    decreases a.len(),
{
    if b.len() == 0 {
        false
    } else if a.len() == 0 {
        true
    } else if a[0] != b[0] {
        a[0] < b[0]
    } else {
        text_lt(a.drop_first(), b.drop_first())
    }
}

/// No text stands before itself.
pub proof fn lemma_text_lt_irreflexive(a: Seq<char>)
    ensures
        !text_lt(a, a),
    decreases a.len(),
{
    if a.len() > 0 {
        lemma_text_lt_irreflexive(a.drop_first());
    }
}

/// The order of texts is transitive.
pub proof fn lemma_text_lt_transitive(a: Seq<char>, b: Seq<char>, c: Seq<char>)
    requires
        text_lt(a, b),
        text_lt(b, c),
    ensures
        text_lt(a, c),
    decreases a.len(),
{
    if a.len() > 0 && a[0] == b[0] && b[0] == c[0] {
        lemma_text_lt_transitive(a.drop_first(), b.drop_first(), c.drop_first());
    }
}

/// Two different texts are ordered one way or the other.
pub proof fn lemma_text_lt_total(a: Seq<char>, b: Seq<char>)
    ensures
        text_lt(a, b) || text_lt(b, a) || a == b,
    decreases a.len(),
{
    if a.len() == 0 || b.len() == 0 {
        if a.len() == 0 && b.len() == 0 {
            assert(a =~= b);
        }
    } else if a[0] == b[0] {
        lemma_text_lt_total(a.drop_first(), b.drop_first());
        if a.drop_first() == b.drop_first() {
            assert(a =~= seq![a[0]] + a.drop_first());
            assert(b =~= seq![b[0]] + b.drop_first());
        }
    }
}

proof fn lemma_text_lt_after(a: Seq<char>, b: Seq<char>, n: int)
    requires
        0 <= n <= a.len(),
        n <= b.len(),
        a.take(n) == b.take(n),
    ensures
        text_lt(a, b) == text_lt(a.skip(n), b.skip(n)),
    decreases n,
{
    if n == 0 {
        assert(a.skip(0) =~= a);
        assert(b.skip(0) =~= b);
    } else {
        assert(a.take(n)[0] == a[0] && b.take(n)[0] == b[0]);
        assert(a.drop_first().take(n - 1) =~= a.take(n).drop_first());
        assert(b.drop_first().take(n - 1) =~= b.take(n).drop_first());
        lemma_text_lt_after(a.drop_first(), b.drop_first(), n - 1);
        assert(a.drop_first().skip(n - 1) =~= a.skip(n));
        assert(b.drop_first().skip(n - 1) =~= b.skip(n));
    }
}

/// Whether text `a` stands before text `b`.
pub fn text_before(a: &str, b: &str) -> (r: bool)
    ensures
        r == text_lt(a@, b@),
{
    let x = chars_of(a);
    let y = chars_of(b);
    let mut i: usize = 0;
    while i < x.len() && i < y.len()
        invariant
            x@ == a@,
            y@ == b@,
            i <= x@.len(),
            i <= y@.len(),
            x@.take(i as int) == y@.take(i as int),
        decreases x@.len() - i,
    {
        if x[i] != y[i] {
            proof {
                lemma_text_lt_after(x@, y@, i as int);
            }
            return x[i] < y[i];
        }
        assert(x@.take(i + 1) =~= x@.take(i as int).push(x@[i as int]));
        assert(y@.take(i + 1) =~= y@.take(i as int).push(y@[i as int]));
        i = i + 1;
    }
    proof {
        lemma_text_lt_after(x@, y@, i as int);
    }
    x.len() == i && y.len() > i
}

// ---------------------------------------------------------------------------
// ASCII case
// ---------------------------------------------------------------------------

/// The ASCII lower case of a character: `A` to `Z` shift by 32, all else stays.
pub open spec fn ascii_lower_char(c: char) -> char {
    if 'A' <= c <= 'Z' {
        ((c as u32) + 32) as char
    } else {
        c
    }
}

/// A text in ASCII lower case.
pub open spec fn ascii_lower(s: Seq<char>) -> Seq<char> {
    s.map_values(|c: char| ascii_lower_char(c))
}

/// A copy of the text in ASCII lower case.
pub fn ascii_lowercase(s: &str) -> (r: String)
    ensures
        r@ == ascii_lower(s@),
{
    let x = chars_of(s);
    let mut out = String::new();
    let mut i: usize = 0;
    while i < x.len()
        invariant
            x@ == s@,
            i <= x@.len(),
            out@ == ascii_lower(x@.take(i as int)),
        decreases x@.len() - i,
    {
        let c = x[i];
        if 'A' <= c && c <= 'Z' {
            out.push(((c as u8) + 32) as char);
        } else {
            out.push(c);
        }
        assert(ascii_lower(x@.take(i + 1)) =~= ascii_lower(x@.take(i as int)).push(
            ascii_lower_char(c),
        ));
        i = i + 1;
    }
    assert(x@.take(i as int) =~= x@);
    out
}

/// The text in lower case, by the rules of Unicode.
pub uninterp spec fn lowercased(s: Seq<char>) -> Seq<char>;

/// The text has no character beyond ASCII.
pub open spec fn is_plain(s: Seq<char>) -> bool {
    forall|i: int| 0 <= i < s.len() ==> (#[trigger] s[i] as int) < 128
}

/// `str::to_lowercase` maps a text to lower case by the rules of Unicode; of
/// ASCII text it maps the letters one by one.
#[verifier::external_body]
pub(crate) fn lowercase(s: &str) -> (r: String)
    ensures
        r@ == lowercased(s@),
        is_plain(s@) ==> r@ == ascii_lower(s@),
{
    s.to_lowercase()
}

/// The text in lower case: of ASCII text the letters one by one, of any other
/// text by the rules of Unicode.
pub open spec fn lower_text(s: Seq<char>) -> Seq<char> {
    if is_plain(s) {
        ascii_lower(s)
    } else {
        lowercased(s)
    }
}

/// A copy of the text in lower case.
pub fn lower(s: &str) -> (r: String)
    ensures
        r@ == lower_text(s@),
{
    lowercase(s)
}

// ---------------------------------------------------------------------------
// Whitespace
// ---------------------------------------------------------------------------

/// The characters with the Unicode property `White_Space`.
pub open spec fn is_space(c: char) -> bool {
    ||| '\u{9}' <= c <= '\u{d}'
    ||| c == '\u{20}'
    ||| c == '\u{85}'
    ||| c == '\u{a0}'
    ||| c == '\u{1680}'
    ||| '\u{2000}' <= c <= '\u{200a}'
    ||| c == '\u{2028}'
    ||| c == '\u{2029}'
    ||| c == '\u{202f}'
    ||| c == '\u{205f}'
    ||| c == '\u{3000}'
}

/// Whether a character is whitespace.
pub fn is_space_char(c: char) -> (r: bool)
    ensures
        r == is_space(c),
{
    ('\u{9}' <= c && c <= '\u{d}') || c == '\u{20}' || c == '\u{85}' || c == '\u{a0}' || c
        == '\u{1680}' || ('\u{2000}' <= c && c <= '\u{200a}') || c == '\u{2028}' || c == '\u{2029}'
        || c == '\u{202f}' || c == '\u{205f}' || c == '\u{3000}'
}

/// A text without its leading whitespace.
pub open spec fn trim_start_spec(s: Seq<char>) -> Seq<char>
    decreases s.len(),
{
    if s.len() > 0 && is_space(s[0]) {
        trim_start_spec(s.drop_first())
    } else {
        s
    }
}

/// A text without its trailing whitespace.
pub open spec fn trim_end_spec(s: Seq<char>) -> Seq<char>
    decreases s.len(),
{
    if s.len() > 0 && is_space(s.last()) {
        trim_end_spec(s.drop_last())
    } else {
        s
    }
}

/// A text without whitespace at either end.
pub open spec fn trimmed(s: Seq<char>) -> Seq<char> {
    trim_end_spec(trim_start_spec(s))
}

/// A text without whitespace at either end.
pub fn trim<'a>(s: &'a str) -> (r: &'a str)
    ensures
        r@ == trimmed(s@),
{
    let x = chars_of(s);
    let total: usize = s.unicode_len();
    let mut from: usize = 0;
    assert(s@.skip(0) =~= s@);
    while from < total && is_space_char(x[from])
        invariant
            x@ == s@,
            total == s@.len(),
            from <= total,
            trim_start_spec(s@.skip(from as int)) == trim_start_spec(s@),
        decreases total - from,
    {
        assert(s@.skip(from as int).drop_first() =~= s@.skip(from + 1));
        from = from + 1;
    }
    let ghost front = s@.skip(from as int);
    assert(trim_start_spec(s@) == front);
    let mut to: usize = total;
    assert(s@.subrange(from as int, to as int) =~= front);
    while to > from && is_space_char(x[to - 1])
        invariant
            x@ == s@,
            total == s@.len(),
            from <= to <= total,
            trim_end_spec(s@.subrange(from as int, to as int)) == trim_end_spec(front),
        decreases to - from,
    {
        assert(s@.subrange(from as int, to as int).drop_last() =~= s@.subrange(
            from as int,
            to - 1,
        ));
        to = to - 1;
    }
    s.substring_char(from, to)
}

/// A text without the run of `c` at its end.
pub open spec fn trim_end_char_spec(s: Seq<char>, c: char) -> Seq<char>
    decreases s.len(),
{
    if s.len() > 0 && s.last() == c {
        trim_end_char_spec(s.drop_last(), c)
    } else {
        s
    }
}

/// A text without the run of `c` at its end.
pub fn trim_end_char<'a>(s: &'a str, c: char) -> (r: &'a str)
    ensures
        r@ == trim_end_char_spec(s@, c),
{
    let x = chars_of(s);
    let mut to: usize = s.unicode_len();
    assert(s@.subrange(0, to as int) =~= s@);
    while to > 0 && x[to - 1] == c
        invariant
            x@ == s@,
            to <= s@.len(),
            trim_end_char_spec(s@.subrange(0, to as int), c) == trim_end_char_spec(s@, c),
        decreases to,
    {
        assert(s@.subrange(0, to as int).drop_last() =~= s@.subrange(0, to - 1));
        to = to - 1;
    }
    s.substring_char(0, to)
}

// ---------------------------------------------------------------------------
// Cutting
// ---------------------------------------------------------------------------

/// The position of the first `c`, or the length where there is none.
pub open spec fn first_at(s: Seq<char>, c: char) -> int
    decreases s.len(),
{
    if s.len() == 0 || s[0] == c {
        0
    } else {
        1 + first_at(s.drop_first(), c)
    }
}

/// `first_at` gives the least position that holds `c`.
pub proof fn lemma_first_at(s: Seq<char>, c: char)
    ensures
        0 <= first_at(s, c) <= s.len(),
        first_at(s, c) < s.len() ==> s[first_at(s, c)] == c,
        first_at(s, c) < s.len() <==> s.contains(c),
        forall|k: int| 0 <= k < first_at(s, c) ==> s[k] != c,
    decreases s.len(),
{
    if s.len() > 0 && s[0] != c {
        lemma_first_at(s.drop_first(), c);
        let rest = s.drop_first();
        assert forall|k: int| 0 <= k < first_at(s, c) implies s[k] != c by {
            if k > 0 {
                assert(rest[k - 1] == s[k]);
            }
        }
        if s.contains(c) {
            let k = choose|k: int| 0 <= k < s.len() && s[k] == c;
            assert(rest[k - 1] == c);
        }
        if first_at(s, c) < s.len() {
            assert(s[first_at(s, c)] == rest[first_at(s, c) - 1]);
        }
    }
}

proof fn lemma_first_at_is(s: Seq<char>, c: char, at: int)
    requires
        0 <= at <= s.len(),
        at < s.len() ==> s[at] == c,
        forall|k: int| 0 <= k < at ==> s[k] != c,
    ensures
        first_at(s, c) == at,
{
    lemma_first_at(s, c);
    if first_at(s, c) < at {
        assert(s[first_at(s, c)] != c);
    }
}

/// The position of the first `c` at or behind `from`, or the length.
fn find_char(x: &Vec<char>, c: char, from: usize) -> (r: usize)
    requires
        from <= x@.len(),
    ensures
        from <= r <= x@.len(),
        r == from + first_at(x@.skip(from as int), c),
{
    let mut i: usize = from;
    while i < x.len() && x[i] != c
        invariant
            from <= i <= x@.len(),
            forall|k: int| from <= k < i ==> x@[k] != c,
        decreases x@.len() - i,
    {
        i = i + 1;
    }
    proof {
        lemma_first_at_is(x@.skip(from as int), c, i - from);
    }
    i
}

/// At most `limit` pieces: the last one is what is left, uncut.
pub open spec fn split_limited(s: Seq<char>, sep: char, limit: nat) -> Seq<Seq<char>>
    decreases limit,
{
    let at = first_at(s, sep);
    if limit == 0 {
        seq![]
    } else if limit == 1 || at >= s.len() {
        seq![s]
    } else {
        seq![s.take(at)] + split_limited(s.skip(at + 1), sep, (limit - 1) as nat)
    }
}

/// At most `limit` pieces of a text, cut at `sep`.
pub fn split_up_to<'a>(s: &'a str, sep: char, limit: usize) -> (r: Vec<&'a str>)
    ensures
        texts(r@) == split_limited(s@, sep, limit as nat),
{
    let x = chars_of(s);
    let total: usize = s.unicode_len();
    let mut out: Vec<&'a str> = Vec::new();
    if limit == 0 {
        assert(texts(out@) =~= seq![]);
        return out;
    }
    let mut from: usize = 0;
    let mut left: usize = limit;
    assert(s@.skip(0) =~= s@);
    assert(texts(out@) + split_limited(s@, sep, limit as nat) =~= split_limited(
        s@,
        sep,
        limit as nat,
    ));
    while left > 1
        invariant
            x@ == s@,
            total == s@.len(),
            from <= total,
            1 <= left,
            texts(out@) + split_limited(s@.skip(from as int), sep, left as nat) == split_limited(
                s@,
                sep,
                limit as nat,
            ),
        decreases left,
    {
        let at: usize = find_char(&x, sep, from);
        let ghost rest = s@.skip(from as int);
        let ghost before = out@;
        if at >= total {
            out.push(s.substring_char(from, total));
            proof {
                assert(s@.subrange(from as int, total as int) =~= rest);
                assert(texts(out@) =~= texts(before).push(rest));
                assert(texts(before) + seq![rest] =~= texts(out@));
            }
            return out;
        }
        out.push(s.substring_char(from, at));
        proof {
            assert(s@.subrange(from as int, at as int) =~= rest.take(at - from));
            assert(rest.skip(at - from + 1) =~= s@.skip(at + 1));
            assert(texts(out@) =~= texts(before).push(rest.take(at - from)));
            assert(texts(before) + (seq![rest.take(at - from)] + split_limited(
                s@.skip(at + 1),
                sep,
                (left - 1) as nat,
            )) =~= texts(out@) + split_limited(s@.skip(at + 1), sep, (left - 1) as nat));
        }
        from = at + 1;
        left = left - 1;
    }
    let ghost before = out@;
    assert(s@.subrange(from as int, total as int) =~= s@.skip(from as int));
    out.push(s.substring_char(from, total));
    assert(texts(out@) =~= texts(before).push(s@.skip(from as int)));
    assert(texts(before) + seq![s@.skip(from as int)] =~= texts(out@));
    out
}

/// The two sides of the first `sep`.
pub fn split_once<'a>(s: &'a str, sep: char) -> (r: Option<(&'a str, &'a str)>)
    ensures
        r is Some <==> s@.contains(sep),
        r matches Some((left, right)) ==> {
            &&& left@ == s@.take(first_at(s@, sep))
            &&& right@ == s@.skip(first_at(s@, sep) + 1)
        },
{
    let x = chars_of(s);
    let total: usize = s.unicode_len();
    let at: usize = find_char(&x, sep, 0);
    proof {
        assert(s@.skip(0) =~= s@);
        lemma_first_at(s@, sep);
    }
    if at >= total {
        return None;
    }
    let left = s.substring_char(0, at);
    let right = s.substring_char(at + 1, total);
    proof {
        assert(s@.subrange(0, at as int) =~= s@.take(at as int));
        assert(s@.subrange(at + 1, total as int) =~= s@.skip(at + 1));
    }
    Some((left, right))
}

/// What stands before the first `sep`, or the whole text.
pub fn before_char<'a>(s: &'a str, sep: char) -> (r: &'a str)
    ensures
        r@ == s@.take(first_at(s@, sep)),
{
    let x = chars_of(s);
    let at: usize = find_char(&x, sep, 0);
    proof {
        assert(s@.skip(0) =~= s@);
        assert(s@.subrange(0, at as int) =~= s@.take(at as int));
    }
    s.substring_char(0, at)
}

/// The position where `needle` first stands at or behind `from`, or the length.
pub open spec fn first_match_from(hay: Seq<char>, needle: Seq<char>, from: int) -> int
    decreases hay.len() - from,
{
    if from >= hay.len() {
        hay.len() as int
    } else if stands_at(hay, needle, from) {
        from
    } else {
        first_match_from(hay, needle, from + 1)
    }
}

/// The second piece of a text that is cut at every occurrence of `sep`.
pub open spec fn second_piece(s: Seq<char>, sep: Seq<char>) -> Option<Seq<char>> {
    let at = first_match_from(s, sep, 0);
    if at >= s.len() {
        None
    } else {
        let next = first_match_from(s, sep, at + sep.len());
        Some(s.subrange(at + sep.len(), next))
    }
}

proof fn lemma_first_match_bounds(hay: Seq<char>, needle: Seq<char>, from: int)
    requires
        0 <= from <= hay.len(),
    ensures
        from <= first_match_from(hay, needle, from) <= hay.len(),
        first_match_from(hay, needle, from) < hay.len() ==> stands_at(
            hay,
            needle,
            first_match_from(hay, needle, from),
        ),
    decreases hay.len() - from,
{
    if from < hay.len() && !stands_at(hay, needle, from) {
        lemma_first_match_bounds(hay, needle, from + 1);
    }
}

fn find_text(x: &Vec<char>, needle: &Vec<char>, from: usize) -> (r: usize)
    requires
        from <= x@.len(),
    ensures
        r == first_match_from(x@, needle@, from as int),
        from <= r <= x@.len(),
{
    let mut i: usize = from;
    proof {
        lemma_first_match_bounds(x@, needle@, from as int);
    }
    while i < x.len()
        invariant
            from <= i <= x@.len(),
            first_match_from(x@, needle@, i as int) == first_match_from(x@, needle@, from as int),
        decreases x@.len() - i,
    {
        if stands_at_in(x, needle, i) {
            return i;
        }
        i = i + 1;
    }
    i
}

/// The second piece of a text that is cut at every occurrence of `sep`.
pub fn piece_after<'a>(s: &'a str, sep: &str) -> (r: Option<&'a str>)
    requires
        sep@.len() > 0,
    ensures
        r is Some <==> second_piece(s@, sep@) is Some,
        r matches Some(piece) ==> piece@ == second_piece(s@, sep@)->0,
{
    let x = chars_of(s);
    let y = chars_of(sep);
    let at: usize = find_text(&x, &y, 0);
    proof {
        lemma_first_match_bounds(s@, sep@, 0);
    }
    if at >= x.len() {
        return None;
    }
    let next: usize = find_text(&x, &y, at + y.len());
    Some(s.substring_char(at + y.len(), next))
}

/// A text in which every `from` became the text `to`.
pub open spec fn replaced(s: Seq<char>, from: char, to: Seq<char>) -> Seq<char>
    decreases s.len(),
{
    if s.len() == 0 {
        s
    } else {
        replaced(s.drop_last(), from, to) + (if s.last() == from {
            to
        } else {
            seq![s.last()]
        })
    }
}

/// A copy of the text in which every `from` became the text `to`.
pub fn replace_char(s: &str, from: char, to: &str) -> (r: String)
    ensures
        r@ == replaced(s@, from, to@),
{
    let x = chars_of(s);
    let mut out = String::new();
    let mut i: usize = 0;
    assert(out@ =~= replaced(x@.take(0), from, to@));
    while i < x.len()
        invariant
            x@ == s@,
            i <= x@.len(),
            out@ == replaced(x@.take(i as int), from, to@),
        decreases x@.len() - i,
    {
        let ghost before = out@;
        let c = x[i];
        if c == from {
            out.append(to);
        } else {
            out.push(c);
            assert(before.push(c) =~= before + seq![c]);
        }
        assert(x@.take(i + 1).drop_last() =~= x@.take(i as int));
        i = i + 1;
    }
    assert(x@.take(i as int) =~= x@);
    out
}

/// The maximal runs of characters that are not whitespace.
pub open spec fn words(s: Seq<char>) -> Seq<Seq<char>>
    decreases s.len(),
{
    if s.len() == 0 {
        seq![]
    } else if is_space(s[0]) {
        words(s.drop_first())
    } else {
        let n = word_len(s);
        if 0 < n <= s.len() {
            seq![s.take(n)] + words(s.skip(n))
        } else {
            seq![]
        }
    }
}

/// The length of the run of non-whitespace that a text begins with.
pub open spec fn word_len(s: Seq<char>) -> int
    decreases s.len(),
{
    if s.len() == 0 || is_space(s[0]) {
        0
    } else {
        1 + word_len(s.drop_first())
    }
}

proof fn lemma_word_len_is(s: Seq<char>, n: int)
    requires
        0 <= n <= s.len(),
        n < s.len() ==> is_space(s[n]),
        forall|k: int| 0 <= k < n ==> !is_space(#[trigger] s[k]),
    ensures
        word_len(s) == n,
    decreases s.len(),
{
    if n > 0 {
        let rest = s.drop_first();
        assert forall|k: int| 0 <= k < n - 1 implies !is_space(#[trigger] rest[k]) by {
            assert(rest[k] == s[k + 1]);
        }
        lemma_word_len_is(rest, n - 1);
    }
}

/// The words of a text: its maximal runs without whitespace.
pub fn split_words<'a>(s: &'a str) -> (r: Vec<&'a str>)
    ensures
        texts(r@) == words(s@),
{
    let x = chars_of(s);
    let total: usize = s.unicode_len();
    let mut out: Vec<&'a str> = Vec::new();
    let mut i: usize = 0;
    assert(s@.skip(0) =~= s@);
    assert(texts(out@) + words(s@) =~= words(s@));
    while i < total
        invariant
            x@ == s@,
            total == s@.len(),
            i <= total,
            texts(out@) + words(s@.skip(i as int)) == words(s@),
        decreases total - i,
    {
        let ghost rest = s@.skip(i as int);
        if is_space_char(x[i]) {
            assert(rest.drop_first() =~= s@.skip(i + 1));
            i = i + 1;
        } else {
            let from: usize = i;
            while i < total && !is_space_char(x[i])
                invariant
                    x@ == s@,
                    total == s@.len(),
                    from <= i <= total,
                    forall|k: int| from <= k < i ==> !is_space(#[trigger] s@[k]),
                decreases total - i,
            {
                i = i + 1;
            }
            proof {
                assert forall|k: int| 0 <= k < i - from implies !is_space(#[trigger] rest[k]) by {
                    assert(rest[k] == s@[from + k]);
                }
                lemma_word_len_is(rest, i - from);
                assert(i > from) by {
                    if i == from {
                        assert(rest[0] == s@[from as int]);
                    }
                }
            }
            let ghost before = out@;
            out.push(s.substring_char(from, i));
            proof {
                assert(s@.subrange(from as int, i as int) =~= rest.take(i - from));
                assert(rest.skip(i - from) =~= s@.skip(i as int));
                assert(texts(out@) =~= texts(before).push(rest.take(i - from)));
                assert(texts(before) + (seq![rest.take(i - from)] + words(s@.skip(i as int)))
                    =~= texts(out@) + words(s@.skip(i as int)));
            }
        }
    }
    assert(s@.skip(i as int) =~= seq![]);
    assert(texts(out@) + seq![] =~= texts(out@));
    out
}

/// A line without a carriage return at its end.
pub open spec fn without_cr(line: Seq<char>) -> Seq<char> {
    if line.len() > 0 && line.last() == '\r' {
        line.drop_last()
    } else {
        line
    }
}

/// The lines of a text. Each ends at a line feed, which is cut off together
/// with a carriage return before it; a last line may go without a line feed.
pub open spec fn lines_of(s: Seq<char>) -> Seq<Seq<char>>
    decreases s.len(),
{
    let at = first_at(s, '\n');
    if s.len() == 0 {
        seq![]
    } else if 0 <= at < s.len() {
        seq![without_cr(s.take(at))] + lines_of(s.skip(at + 1))
    } else {
        seq![s]
    }
}

/// The lines of a text.
pub fn split_lines<'a>(s: &'a str) -> (r: Vec<&'a str>)
    ensures
        texts(r@) == lines_of(s@),
{
    let x = chars_of(s);
    let total: usize = s.unicode_len();
    let mut out: Vec<&'a str> = Vec::new();
    let mut from: usize = 0;
    assert(s@.skip(0) =~= s@);
    assert(texts(out@) + lines_of(s@) =~= lines_of(s@));
    while from < total
        invariant
            x@ == s@,
            total == s@.len(),
            from <= total,
            texts(out@) + lines_of(s@.skip(from as int)) == lines_of(s@),
        decreases total - from,
    {
        let ghost rest = s@.skip(from as int);
        let ghost before = out@;
        let at: usize = find_char(&x, '\n', from);
        proof {
            lemma_first_at(rest, '\n');
        }
        if at >= total {
            out.push(s.substring_char(from, total));
            proof {
                assert(s@.subrange(from as int, total as int) =~= rest);
                assert(texts(out@) =~= texts(before).push(rest));
                assert(texts(before) + seq![rest] =~= texts(out@));
            }
            return out;
        }
        let end: usize = if at > from && x[at - 1] == '\r' {
            at - 1
        } else {
            at
        };
        out.push(s.substring_char(from, end));
        proof {
            let line = rest.take(at - from);
            assert(at > from ==> line.last() == x@[at - 1]);
            assert(s@.subrange(from as int, end as int) =~= without_cr(line));
            assert(rest.skip(at - from + 1) =~= s@.skip(at + 1));
            assert(texts(out@) =~= texts(before).push(without_cr(line)));
            assert(texts(before) + (seq![without_cr(line)] + lines_of(s@.skip(at + 1)))
                =~= texts(out@) + lines_of(s@.skip(at + 1)));
        }
        from = at + 1;
    }
    assert(s@.skip(from as int) =~= seq![]);
    assert(texts(out@) + seq![] =~= texts(out@));
    out
}

// ---------------------------------------------------------------------------
// Joining
// ---------------------------------------------------------------------------

/// The parts one after another, with `sep` between neighbours.
pub open spec fn joined(parts: Seq<Seq<char>>, sep: Seq<char>) -> Seq<char>
    decreases parts.len(),
{
    if parts.len() == 0 {
        seq![]
    } else if parts.len() == 1 {
        parts[0]
    } else {
        joined(parts.drop_last(), sep) + sep + parts.last()
    }
}

/// The parts one after another, with `sep` between neighbours.
pub fn join(parts: &Vec<String>, sep: &str) -> (r: String)
    ensures
        r@ == joined(string_texts(parts@), sep@),
{
    let mut out = String::new();
    let ghost all = string_texts(parts@);
    let mut i: usize = 0;
    while i < parts.len()
        invariant
            all == string_texts(parts@),
            i <= parts@.len(),
            out@ == joined(all.take(i as int), sep@),
        decreases parts@.len() - i,
    {
        let ghost before = out@;
        if i > 0 {
            out.append(sep);
        }
        out.append(parts[i].as_str());
        proof {
            let next = all.take(i + 1);
            assert(next.drop_last() =~= all.take(i as int));
            assert(next.last() == parts@[i as int]@);
            if i == 0 {
                assert(before + parts@[0]@ =~= next[0]);
            }
        }
        i = i + 1;
    }
    assert(all.take(i as int) =~= all);
    out
}

// ---------------------------------------------------------------------------
// Laws
// ---------------------------------------------------------------------------

/// A text occurs in another exactly where it is a piece of it.
pub proof fn occurrence_is_a_piece(hay: Seq<char>, needle: Seq<char>)
    ensures
        occurs(hay, needle) <==> exists|at: int|
            0 <= at <= hay.len() - needle.len() && #[trigger] hay.subrange(at, at + needle.len())
                == needle,
{
    if occurs(hay, needle) {
        let at = choose|at: int| stands_at(hay, needle, at);
        assert(hay.subrange(at, at + needle.len()) == needle);
    }
    if exists|at: int|
        0 <= at <= hay.len() - needle.len() && #[trigger] hay.subrange(at, at + needle.len())
            == needle {
        let at = choose|at: int|
            0 <= at <= hay.len() - needle.len() && #[trigger] hay.subrange(at, at + needle.len())
                == needle;
        assert(stands_at(hay, needle, at));
    }
}

/// Of two texts that agree in their first `n` characters the one that ends
/// there stands first, else the one whose next character is less.
pub proof fn first_difference_decides(a: Seq<char>, b: Seq<char>, n: int)
    requires
        0 <= n <= a.len(),
        n <= b.len(),
        forall|i: int| 0 <= i < n ==> #[trigger] a[i] == b[i],
    ensures
        n == a.len() ==> (text_lt(a, b) <==> n < b.len()),
        n == b.len() ==> !text_lt(a, b),
        n < a.len() && n < b.len() && a[n] != b[n] ==> (text_lt(a, b) <==> a[n] < b[n]),
{
    assert(a.take(n) =~= b.take(n));
    lemma_text_lt_after(a, b, n);
}

/// Blanks, tabs and line breaks are whitespace; what is printed in ASCII is not.
pub proof fn printed_characters_are_no_whitespace(c: char)
    ensures
        is_space(' ') && is_space('\t') && is_space('\n') && is_space('\r'),
        '!' <= c <= '~' ==> !is_space(c),
{
}

proof fn lemma_trim_start(s: Seq<char>) -> (from: int)
    ensures
        0 <= from <= s.len(),
        trim_start_spec(s) == s.skip(from),
        forall|i: int| 0 <= i < from ==> is_space(#[trigger] s[i]),
        from < s.len() ==> !is_space(s[from]),
    decreases s.len(),
{
    if s.len() > 0 && is_space(s[0]) {
        let rest = s.drop_first();
        let from = lemma_trim_start(rest);
        assert(rest.skip(from) =~= s.skip(from + 1));
        assert forall|i: int| 0 <= i < from + 1 implies is_space(#[trigger] s[i]) by {
            if i > 0 {
                assert(rest[i - 1] == s[i]);
            }
        }
        from + 1
    } else {
        assert(s.skip(0) =~= s);
        0
    }
}

proof fn lemma_trim_end(s: Seq<char>) -> (to: int)
    ensures
        0 <= to <= s.len(),
        trim_end_spec(s) == s.take(to),
        forall|i: int| to <= i < s.len() ==> is_space(#[trigger] s[i]),
        to > 0 ==> !is_space(s[to - 1]),
    decreases s.len(),
{
    if s.len() > 0 && is_space(s.last()) {
        let rest = s.drop_last();
        let to = lemma_trim_end(rest);
        assert(rest.take(to) =~= s.take(to));
        assert forall|i: int| to <= i < s.len() implies is_space(#[trigger] s[i]) by {
            if i < s.len() - 1 {
                assert(rest[i] == s[i]);
            }
        }
        to
    } else {
        assert(s.take(s.len() as int) =~= s);
        s.len() as int
    }
}

/// Trimming takes away whitespace at both ends, all of it, and nothing else.
pub proof fn trimming_takes_the_outer_whitespace(s: Seq<char>) -> (cut: (int, int))
    ensures
        0 <= cut.0 <= cut.1 <= s.len(),
        trimmed(s) == s.subrange(cut.0, cut.1),
        forall|i: int| 0 <= i < cut.0 || cut.1 <= i < s.len() ==> is_space(#[trigger] s[i]),
        cut.0 < cut.1 ==> !is_space(s[cut.0]) && !is_space(s[cut.1 - 1]),
{
    let from = lemma_trim_start(s);
    let rest = s.skip(from);
    let to = lemma_trim_end(rest);
    assert(rest.take(to) =~= s.subrange(from, from + to));
    assert forall|i: int| 0 <= i < from || from + to <= i < s.len() implies is_space(
        #[trigger] s[i],
    ) by {
        if i >= from {
            assert(rest[i - from] == s[i]);
        }
    }
    if to > 0 {
        assert(rest[to - 1] == s[from + to - 1]);
    }
    (from, from + to)
}

/// Lower case moves `A` to `Z` and leaves every other character in its place.
pub proof fn lower_case_moves_capitals_only(s: Seq<char>, i: int)
    requires
        0 <= i < s.len(),
    ensures
        ascii_lower(s).len() == s.len(),
        'A' <= s[i] <= 'Z' ==> ascii_lower(s)[i] as int - 'a' as int == s[i] as int - 'A' as int,
        !('A' <= s[i] <= 'Z') ==> ascii_lower(s)[i] == s[i],
{
}

/// A text is cut at the first separator: the piece before it has none, and what
/// is behind it is cut on, as often as the limit allows. A text without a
/// separator, or cut into one piece, stays whole.
pub proof fn pieces_are_what_stands_between(
    piece: Seq<char>,
    sep: char,
    rest: Seq<char>,
    limit: nat,
)
    requires
        !piece.contains(sep),
    ensures
        limit >= 1 ==> split_limited(piece, sep, limit) == seq![piece],
        limit >= 2 ==> split_limited(piece + seq![sep] + rest, sep, limit) == seq![piece]
            + split_limited(rest, sep, (limit - 1) as nat),
        split_limited(rest, sep, 1) == seq![rest],
{
    lemma_first_at(piece, sep);
    let s = piece + seq![sep] + rest;
    assert forall|k: int| 0 <= k < piece.len() implies s[k] != sep by {
        assert(s[k] == piece[k]);
    }
    assert(s[piece.len() as int] == sep);
    lemma_first_at_is(s, sep, piece.len() as int);
    assert(s.take(piece.len() as int) =~= piece);
    assert(s.skip(piece.len() as int + 1) =~= rest);
}

/// A line ends at the first line feed, without a carriage return before it; the
/// lines behind it follow. The last line may go without a line feed.
pub proof fn lines_end_at_their_feed(line: Seq<char>, rest: Seq<char>)
    requires
        !line.contains('\n'),
    ensures
        line.len() > 0 ==> lines_of(line) == seq![line],
        lines_of(line + seq!['\n'] + rest) == seq![
            if line.len() > 0 && line.last() == '\r' {
                line.drop_last()
            } else {
                line
            },
        ] + lines_of(rest),
        lines_of(Seq::<char>::empty()).len() == 0,
{
    lemma_first_at(line, '\n');
    let s = line + seq!['\n'] + rest;
    assert forall|k: int| 0 <= k < line.len() implies s[k] != '\n' by {
        assert(s[k] == line[k]);
    }
    assert(s[line.len() as int] == '\n');
    lemma_first_at_is(s, '\n', line.len() as int);
    assert(s.take(line.len() as int) =~= line);
    assert(s.skip(line.len() as int + 1) =~= rest);
}

/// A word ends at the first whitespace, which belongs to no word.
pub proof fn words_end_at_whitespace(word: Seq<char>, space: char, rest: Seq<char>)
    requires
        word.len() > 0,
        forall|i: int| 0 <= i < word.len() ==> !is_space(#[trigger] word[i]),
        is_space(space),
    ensures
        words(word) == seq![word],
        words(word + seq![space] + rest) == seq![word] + words(rest),
        words(seq![space] + rest) == words(rest),
        words(Seq::<char>::empty()).len() == 0,
{
    assert(!is_space(word[0]));
    lemma_word_len_is(word, word.len() as int);
    assert(words(Seq::<char>::empty()) =~= seq![]);
    assert(word.take(word.len() as int) =~= word);
    assert(word.skip(word.len() as int) =~= seq![]);
    assert(seq![word] + Seq::<Seq<char>>::empty() =~= seq![word]);
    let s = word + seq![space] + rest;
    let n = word.len() as int;
    assert forall|k: int| 0 <= k < n implies !is_space(#[trigger] s[k]) by {
        assert(s[k] == word[k]);
    }
    assert(s[0] == word[0]);
    assert(s[n] == space);
    lemma_word_len_is(s, n);
    assert(s.take(n) =~= word);
    let tail = seq![space] + rest;
    assert(s.skip(n) =~= tail);
    assert(tail.drop_first() =~= rest);
    assert(words(tail) == words(rest));
    assert(words(s) == seq![s.take(n)] + words(s.skip(n)));
}

/// Joining puts the separator between neighbours, and nowhere else.
pub proof fn joined_parts_have_the_separator_between(
    parts: Seq<Seq<char>>,
    last: Seq<char>,
    sep: Seq<char>,
)
    ensures
        joined(Seq::empty(), sep).len() == 0,
        joined(seq![last], sep) == last,
        parts.len() > 0 ==> joined(parts.push(last), sep) == joined(parts, sep) + sep + last,
{
    assert(parts.push(last).drop_last() =~= parts);
}

/// Replacing a character leaves a text without it as it is, and puts the new
/// text in place of each one.
pub proof fn replacing_reaches_each_character(
    before: Seq<char>,
    c: char,
    to: Seq<char>,
    rest: Seq<char>,
)
    ensures
        !before.contains(c) ==> replaced(before, c, to) == before,
        replaced(before + seq![c] + rest, c, to) == replaced(before, c, to) + to + replaced(
            rest,
            c,
            to,
        ),
    decreases before.len() + rest.len(),
{
    if before.len() > 0 && !before.contains(c) {
        let shorter = before.drop_last();
        assert(before.last() == before[before.len() - 1]);
        assert forall|i: int| 0 <= i < shorter.len() implies shorter[i] != c by {
            assert(shorter[i] == before[i]);
            assert(before.contains(before[i]));
        }
        replacing_reaches_each_character(shorter, c, to, rest);
        assert(shorter.push(before.last()) =~= before);
        assert(shorter + seq![before.last()] =~= before);
    }
    let s = before + seq![c] + rest;
    if rest.len() == 0 {
        assert(s =~= before.push(c));
        assert(s.drop_last() =~= before);
        assert(replaced(before, c, to) + to + replaced(rest, c, to) =~= replaced(before, c, to)
            + to);
    } else {
        let fewer = rest.drop_last();
        replacing_reaches_each_character(before, c, to, fewer);
        assert(s.drop_last() =~= before + seq![c] + fewer);
        assert(s.last() == rest.last());
        let end = if rest.last() == c {
            to
        } else {
            seq![rest.last()]
        };
        assert(replaced(rest, c, to) == replaced(fewer, c, to) + end);
        assert((replaced(before, c, to) + to + replaced(fewer, c, to)) + end =~= replaced(
            before,
            c,
            to,
        ) + to + (replaced(fewer, c, to) + end));
    }
}

/// Trimming a character from the end takes away all of it that stands there,
/// and nothing else.
pub proof fn trimming_the_end_takes_one_character(s: Seq<char>, c: char) -> (to: int)
    ensures
        0 <= to <= s.len(),
        trim_end_char_spec(s, c) == s.take(to),
        forall|i: int| to <= i < s.len() ==> #[trigger] s[i] == c,
        to > 0 ==> s[to - 1] != c,
    decreases s.len(),
{
    if s.len() > 0 && s.last() == c {
        let rest = s.drop_last();
        let to = trimming_the_end_takes_one_character(rest, c);
        assert(rest.take(to) =~= s.take(to));
        assert forall|i: int| to <= i < s.len() implies #[trigger] s[i] == c by {
            if i < s.len() - 1 {
                assert(rest[i] == s[i]);
            }
        }
        to
    } else {
        assert(s.take(s.len() as int) =~= s);
        s.len() as int
    }
}

} // verus!
