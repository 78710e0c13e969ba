//! Text as sequences of characters: trimming, case folding, searching,
//! splitting and the few number formats that the other modules need.

use vstd::prelude::*;

verus! {

/// `String::push` appends the one character that it is given.
pub assume_specification[ String::push ](s: &mut String, c: char)
    ensures
        final(s)@ == old(s)@.push(c),
;

/// The text that `String::from_utf8_lossy` makes of bytes.
pub uninterp spec fn utf8_lossy(bytes: Seq<u8>) -> Seq<char>;

/// `String::from_utf8_lossy`: the bytes as text, with a replacement character for
/// what is not UTF-8.
#[verifier::external_body]
pub(crate) fn decode_lossy(bytes: &[u8]) -> (r: String)
    ensures
        r@ == utf8_lossy(bytes@),
{
    String::from_utf8_lossy(bytes).to_string()
}

/// The characters with the Unicode property `White_Space`.
pub open spec fn is_white(c: char) -> bool {
    let n = c as u32;
    ||| 0x09 <= n <= 0x0d
    ||| n == 0x20
    ||| n == 0x85
    ||| n == 0xa0
    ||| n == 0x1680
    ||| 0x2000 <= n <= 0x200a
    ||| n == 0x2028
    ||| n == 0x2029
    ||| n == 0x202f
    ||| n == 0x205f
    ||| n == 0x3000
}

/// Whether `c` is white space in the sense of [`is_white`].
pub fn white(c: char) -> (r: bool)
    ensures
        r == is_white(c),
{
    let n: u32 = c as u32;
    (0x09 <= n && n <= 0x0d) || n == 0x20 || n == 0x85 || n == 0xa0 || n == 0x1680 || (0x2000 <= n
        && n <= 0x200a) || n == 0x2028 || n == 0x2029 || n == 0x202f || n == 0x205f || n == 0x3000
}

/// The characters of `s`.
pub fn chars_of(s: &str) -> (r: Vec<char>)
    ensures
        r@ == s@,
{
    let mut out: Vec<char> = Vec::new();
    for c in it: s.chars()
        invariant
            it.seq() == s@,
            out@ == s@.take(it.index()),
    {
        out.push(c);
        assert(s@.take(it.index() + 1) == s@.take(it.index()).push(c));
    }
    assert(s@.take(s@.len() as int) == s@);
    out
}

/// The text made of the characters `from <= i < to` of `v`.
pub fn string_between(v: &Vec<char>, from: usize, to: usize) -> (r: String)
    requires
        from <= to <= v.len(),
    ensures
        r@ == v@.subrange(from as int, to as int),
{
    let mut out = String::new();
    let mut i: usize = from;
    while i < to
        invariant
            from <= i <= to <= v.len(),
            out@ == v@.subrange(from as int, i as int),
        decreases to - i,
    {
        out.push(v[i]);
        assert(v@.subrange(from as int, i + 1) == v@.subrange(from as int, i as int).push(
            v@[i as int],
        ));
        i = i + 1;
    }
    out
}

/// The text made of the characters of `v`.
pub fn string_of(v: &Vec<char>) -> (r: String)
    ensures
        r@ == v@,
{
    assert(v@.subrange(0, v@.len() as int) == v@);
    string_between(v, 0, v.len())
}

/// Whether two texts hold the same characters.
pub fn same(a: &str, b: &str) -> (r: bool)
    ensures
        r == (a@ == b@),
{
    let x = chars_of(a);
    let y = chars_of(b);
    same_chars(&x, &y)
}

/// Whether two vectors hold the same characters.
pub fn same_chars(x: &Vec<char>, y: &Vec<char>) -> (r: bool)
    ensures
        r == (x@ == y@),
{
    if x.len() != y.len() {
        return false;
    }
    let mut i: usize = 0;
    while i < x.len()
        invariant
            i <= x.len() == y.len(),
            forall|k: int| 0 <= k < i ==> x@[k] == y@[k],
        decreases x.len() - i,
    {
        if x[i] != y[i] {
            return false;
        }
        i = i + 1;
    }
    assert(x@ == y@);
    true
}

/// `a` followed by `b`.
pub fn joined(a: &str, b: &str) -> (r: String)
    ensures
        r@ == a@ + b@,
{
    let mut out = a.to_owned();
    out.append(b);
    out
}

/// The sets of characters that texts are trimmed of.
#[derive(Clone, Copy, PartialEq, Eq, Structural)]
pub enum Class {
    /// White space.
    White,
    /// The path separators `/` and `\\`.
    Slash,
    /// The carriage return.
    Return,
    /// The double quote.
    Quote,
}

impl Class {
    /// Whether `c` belongs to the set.
    pub open spec fn holds(self, c: char) -> bool {
        match self {
            Class::White => is_white(c),
            Class::Slash => c == '/' || c == '\\',
            Class::Return => c == '\r',
            Class::Quote => c == '"',
        }
    }

    /// Whether `c` belongs to the set, as [`Class::holds`] says.
    pub fn has(self, c: char) -> (r: bool)
        ensures
            r == self.holds(c),
    {
        match self {
            Class::White => white(c),
            Class::Slash => c == '/' || c == '\\',
            Class::Return => c == '\r',
            Class::Quote => c == '"',
        }
    }
}

/// `s` without its leading characters in `class`.
pub open spec fn trim_left(s: Seq<char>, class: Class) -> Seq<char>
    decreases s.len(),
{
    if s.len() > 0 && class.holds(s[0]) {
        trim_left(s.skip(1), class)
    } else {
        s
    }
}

/// `s` without its trailing characters in `class`.
pub open spec fn trim_right(s: Seq<char>, class: Class) -> Seq<char>
    decreases s.len(),
{
    if s.len() > 0 && class.holds(s.last()) {
        trim_right(s.drop_last(), class)
    } else {
        s
    }
}

/// `s` without leading and trailing characters in `class`.
pub open spec fn trim_both(s: Seq<char>, class: Class) -> Seq<char> {
    trim_right(trim_left(s, class), class)
}

/// `s` without leading and trailing white space.
pub open spec fn trim(s: Seq<char>) -> Seq<char> {
    trim_both(s, Class::White)
}

/// Trimming makes no text longer.
proof fn lemma_trim_length(s: Seq<char>, class: Class)
    ensures
        trim_left(s, class).len() <= s.len(),
        trim_right(s, class).len() <= s.len(),
    decreases s.len(),
{
    if s.len() > 0 {
        lemma_trim_length(s.skip(1), class);
        lemma_trim_length(s.drop_last(), class);
    }
}

/// A text stays as it is when it is trimmed just if it has no white space at its
/// ends.
pub proof fn lemma_trim_same(s: Seq<char>)
    requires
        s.len() > 0,
    ensures
        trim(s) == s <==> !is_white(s[0]) && !is_white(s.last()),
{
    lemma_trim_length(s.skip(1), Class::White);
    lemma_trim_length(trim_left(s, Class::White), Class::White);
    lemma_trim_length(s.drop_last(), Class::White);
    if !is_white(s[0]) && is_white(s.last()) {
        assert(trim(s).len() < s.len());
    }
}

/// Where the characters `from <= i < to` of `v` begin once trimmed on the left.
pub fn left_edge(v: &Vec<char>, from: usize, to: usize, class: Class) -> (r: usize)
    requires
        from <= to <= v.len(),
    ensures
        from <= r <= to,
        trim_left(v@.subrange(from as int, to as int), class) == v@.subrange(r as int, to as int),
{
    let mut i: usize = from;
    while i < to && class.has(v[i])
        invariant
            from <= i <= to <= v.len(),
            trim_left(v@.subrange(from as int, to as int), class) == trim_left(
                v@.subrange(i as int, to as int),
                class,
            ),
        decreases to - i,
    {
        assert(v@.subrange(i as int, to as int).skip(1) == v@.subrange(i + 1, to as int));
        i = i + 1;
    }
    i
}

/// Where the characters `from <= i < to` of `v` end once trimmed on the right.
pub fn right_edge(v: &Vec<char>, from: usize, to: usize, class: Class) -> (r: usize)
    requires
        from <= to <= v.len(),
    ensures
        from <= r <= to,
        trim_right(v@.subrange(from as int, to as int), class) == v@.subrange(
            from as int,
            r as int,
        ),
{
    let mut i: usize = to;
    while i > from && class.has(v[i - 1])
        invariant
            from <= i <= to <= v.len(),
            trim_right(v@.subrange(from as int, to as int), class) == trim_right(
                v@.subrange(from as int, i as int),
                class,
            ),
        decreases i,
    {
        assert(v@.subrange(from as int, i as int).drop_last() == v@.subrange(
            from as int,
            i - 1,
        ));
        i = i - 1;
    }
    i
}

/// `v` without leading and trailing characters in `class`.
pub fn trimmed_chars(v: &Vec<char>, class: Class) -> (r: Vec<char>)
    ensures
        r@ == trim_both(v@, class),
{
    assert(v@.subrange(0, v@.len() as int) == v@);
    let a = left_edge(v, 0, v.len(), class);
    let b = right_edge(v, a, v.len(), class);
    chars_between(v, a, b)
}

/// `v` without leading characters in `class`.
pub fn left_trimmed(v: &Vec<char>, class: Class) -> (r: Vec<char>)
    ensures
        r@ == trim_left(v@, class),
{
    assert(v@.subrange(0, v@.len() as int) == v@);
    let a = left_edge(v, 0, v.len(), class);
    chars_between(v, a, v.len())
}

/// `v` without trailing characters in `class`.
pub fn right_trimmed(v: &Vec<char>, class: Class) -> (r: Vec<char>)
    ensures
        r@ == trim_right(v@, class),
{
    assert(v@.subrange(0, v@.len() as int) == v@);
    let b = right_edge(v, 0, v.len(), class);
    chars_between(v, 0, b)
}

/// `s` without leading and trailing white space.
pub fn trimmed(s: &str) -> (r: String)
    ensures
        r@ == trim(s@),
{
    let v = chars_of(s);
    let t = trimmed_chars(&v, Class::White);
    string_of(&t)
}

/// The characters `from <= i < to` of `v`.
pub fn chars_between(v: &Vec<char>, from: usize, to: usize) -> (r: Vec<char>)
    requires
        from <= to <= v.len(),
    ensures
        r@ == v@.subrange(from as int, to as int),
{
    let mut out: Vec<char> = Vec::new();
    let mut i: usize = from;
    while i < to
        invariant
            from <= i <= to <= v.len(),
            out@ == v@.subrange(from as int, i as int),
        decreases to - i,
    {
        out.push(v[i]);
        assert(v@.subrange(from as int, i + 1) == v@.subrange(from as int, i as int).push(
            v@[i as int],
        ));
        i = i + 1;
    }
    out
}

/// `c` in lower case if it is an ASCII letter, else `c` itself.
pub open spec fn lower_char(c: char) -> char {
    if 'A' <= c <= 'Z' {
        (c as u8 + 32) as char
    } else {
        c
    }
}

/// `s` with its ASCII letters in lower case.
pub open spec fn lower(s: Seq<char>) -> Seq<char> {
    s.map_values(|c: char| lower_char(c))
}

/// `v` with its ASCII letters in lower case.
pub fn lowered(v: &Vec<char>) -> (r: Vec<char>)
    ensures
        r@ == lower(v@),
{
    let mut out: Vec<char> = Vec::new();
    let mut i: usize = 0;
    while i < v.len()
        invariant
            i <= v.len(),
            out@ == lower(v@.take(i as int)),
        decreases v.len() - i,
    {
        let c: char = v[i];
        let d: char = if 'A' <= c && c <= 'Z' {
            (c as u8 + 32) as char
        } else {
            c
        };
        out.push(d);
        assert(v@.take(i + 1) == v@.take(i as int).push(c));
        assert(lower(v@.take(i + 1)) == lower(v@.take(i as int)).push(d));
        i = i + 1;
    }
    assert(v@.take(v@.len() as int) == v@);
    out
}

/// Whether `p` stands at position `i` of `s`.
pub open spec fn occurs_at(s: Seq<char>, p: Seq<char>, i: int) -> bool {
    0 <= i && i + p.len() <= s.len() && s.subrange(i, i + p.len()) == p
}

/// Whether `s` begins with `p`.
pub open spec fn has_prefix(s: Seq<char>, p: Seq<char>) -> bool {
    occurs_at(s, p, 0)
}

/// `s` without every `p` that it begins with.
pub open spec fn without(s: Seq<char>, p: Seq<char>) -> Seq<char>
    decreases s.len(),
{
    if p.len() > 0 && has_prefix(s, p) {
        without(s.skip(p.len() as int), p)
    } else {
        s
    }
}

/// Whether `s` ends with `p`.
pub open spec fn has_suffix(s: Seq<char>, p: Seq<char>) -> bool {
    occurs_at(s, p, s.len() - p.len())
}

/// Whether `p` stands somewhere in `s`.
pub open spec fn has_part(s: Seq<char>, p: Seq<char>) -> bool {
    exists|i: int| occurs_at(s, p, i)
}

/// Whether `p` stands at position `i` of `v`.
pub fn stands_at(v: &Vec<char>, p: &Vec<char>, i: usize) -> (r: bool)
    requires
        i <= v.len(),
    ensures
        r == occurs_at(v@, p@, i as int),
{
    if p.len() > v.len() - i {
        return false;
    }
    let mut k: usize = 0;
    while k < p.len()
        invariant
            k <= p.len() <= v.len() - i,
            i <= v.len(),
            forall|j: int| 0 <= j < k ==> v@[i + j] == p@[j],
        decreases p.len() - k,
    {
        if v[i + k] != p[k] {
            assert(v@.subrange(i as int, i + p@.len())[k as int] != p@[k as int]);
            return false;
        }
        k = k + 1;
    }
    assert(v@.subrange(i as int, i + p@.len()) == p@);
    true
}

/// Whether `v` begins with `p`.
pub fn begins_with(v: &Vec<char>, p: &str) -> (r: bool)
    ensures
        r == has_prefix(v@, p@),
{
    let q = chars_of(p);
    stands_at(v, &q, 0)
}

/// `v` without every `p` that it begins with.
pub fn drop_all(v: &Vec<char>, p: &str) -> (r: Vec<char>)
    ensures
        r@ == without(v@, p@),
{
    let q = chars_of(p);
    let mut from: usize = 0;
    assert(v@.skip(0) =~= v@);
    while q.len() > 0 && q.len() <= v.len() - from && stands_at(v, &q, from)
        invariant
            from <= v.len(),
            q@ == p@,
            without(v@, p@) == without(v@.skip(from as int), p@),
        decreases v.len() - from,
    {
        proof {
            let rest = v@.skip(from as int);
            assert(rest.subrange(0, q@.len() as int) =~= v@.subrange(from as int, from + q@.len()));
            assert(rest.skip(q@.len() as int) =~= v@.skip(from + q@.len()));
        }
        from = from + q.len();
    }
    proof {
        let rest = v@.skip(from as int);
        if q@.len() > 0 && has_prefix(rest, p@) {
            assert(rest.subrange(0, q@.len() as int) =~= v@.subrange(from as int, from + q@.len()));
        }
    }
    chars_between(v, from, v.len())
}

/// Whether `v` ends with `p`.
pub fn ends_with(v: &Vec<char>, p: &str) -> (r: bool)
    ensures
        r == has_suffix(v@, p@),
{
    let q = chars_of(p);
    if q.len() > v.len() {
        return false;
    }
    stands_at(v, &q, v.len() - q.len())
}

/// The first position of `p` in `s` from position `i` on.
pub open spec fn find_from(s: Seq<char>, p: Seq<char>, i: int) -> Option<int>
    decreases s.len() - i + 1,
{
    if i + p.len() > s.len() {
        None
    } else if occurs_at(s, p, i) {
        Some(i)
    } else {
        find_from(s, p, i + 1)
    }
}

/// The first position of `p` in `s`.
pub open spec fn find(s: Seq<char>, p: Seq<char>) -> Option<int> {
    find_from(s, p, 0)
}

/// The first position of `p` in `v` from position `from` on.
pub fn position_from(v: &Vec<char>, p: &Vec<char>, from: usize) -> (r: Option<usize>)
    requires
        from <= v.len(),
    ensures
        match r {
            Some(i) => find_from(v@, p@, from as int) == Some(i as int) && from <= i && i
                + p@.len() <= v@.len(),
            None => find_from(v@, p@, from as int) is None,
        },
{
    let mut i: usize = from;
    while p.len() <= v.len() - i
        invariant
            from <= i <= v.len(),
            find_from(v@, p@, from as int) == find_from(v@, p@, i as int),
        decreases v.len() - i,
    {
        if stands_at(v, p, i) {
            return Some(i);
        }
        assert(p@.len() == 0 ==> v@.subrange(i as int, i as int) == p@);
        i = i + 1;
    }
    None
}

/// Whether `p` stands somewhere in `v`.
pub fn contains(v: &Vec<char>, p: &str) -> (r: bool)
    ensures
        r == has_part(v@, p@),
{
    let q = chars_of(p);
    let r = position_from(v, &q, 0);
    proof {
        lemma_find(v@, q@, 0);
    }
    r.is_some()
}

/// `find_from` is the least position at which the pattern stands.
pub proof fn lemma_find(s: Seq<char>, p: Seq<char>, i: int)
    requires
        0 <= i,
    ensures
        match find_from(s, p, i) {
            Some(k) => i <= k && occurs_at(s, p, k) && forall|j: int|
                i <= j < k ==> !occurs_at(s, p, j),
            None => forall|j: int| i <= j ==> !occurs_at(s, p, j),
        },
    decreases s.len() - i + 1,
{
    if i + p.len() <= s.len() && !occurs_at(s, p, i) {
        lemma_find(s, p, i + 1);
    }
}

/// The position of the first `c` in `s`, or the length of `s`.
pub open spec fn until(s: Seq<char>, c: char) -> nat
    decreases s.len(),
{
    if s.len() == 0 || s[0] == c {
        0
    } else {
        1 + until(s.skip(1), c)
    }
}

/// `until` is at most the length; before it there is no `c` and at it there is one.
pub proof fn lemma_until(s: Seq<char>, c: char)
    ensures
        until(s, c) <= s.len(),
        until(s, c) < s.len() ==> s[until(s, c) as int] == c,
        forall|i: int| 0 <= i < until(s, c) ==> s[i] != c,
    decreases s.len(),
{
    if s.len() > 0 && s[0] != c {
        lemma_until(s.skip(1), c);
        assert forall|i: int| 0 <= i < until(s, c) implies s[i] != c by {
            if i > 0 {
                assert(s.skip(1)[i - 1] == s[i]);
            }
        }
    }
}

/// The first position of `c` in `v` from `from` on, or the length of `v`.
pub fn scan(v: &Vec<char>, c: char, from: usize) -> (r: usize)
    requires
        from <= v.len(),
    ensures
        from <= r <= v.len(),
        r - from == until(v@.skip(from as int), c),
{
    let mut i: usize = from;
    while i < v.len() && v[i] != c
        invariant
            from <= i <= v.len(),
            until(v@.skip(from as int), c) == (i - from) + until(v@.skip(i as int), c),
        decreases v.len() - i,
    {
        assert(v@.skip(i as int).skip(1) == v@.skip(i + 1));
        i = i + 1;
    }
    i
}

/// `s` without a carriage return at its end.
pub open spec fn drop_return(s: Seq<char>) -> Seq<char> {
    if s.len() > 0 && s.last() == '\r' {
        s.drop_last()
    } else {
        s
    }
}

/// The lines of `s`, as `str::lines` cuts them: a line ends with a newline or a
/// carriage return and a newline, and the last ending may be missing.
pub open spec fn lines(s: Seq<char>) -> Seq<Seq<char>>
    decreases s.len(),
{
    if s.len() == 0 {
        Seq::empty()
    } else {
        let k = until(s, '\n') as int;
        if k < s.len() {
            seq![drop_return(s.take(k))] + lines(s.skip(k + 1))
        } else {
            seq![s]
        }
    }
}

/// The characters of each vector.
pub open spec fn views(v: Seq<Vec<char>>) -> Seq<Seq<char>> {
    v.map_values(|x: Vec<char>| x@)
}

/// The texts of a sequence of strings.
pub open spec fn texts(v: Seq<String>) -> Seq<Seq<char>> {
    v.map_values(|x: String| x@)
}

/// An optional text.
pub open spec fn opt_str(s: Option<&str>) -> Option<Seq<char>> {
    match s {
        Some(x) => Some(x@),
        None => None,
    }
}

/// Whether `s` is one of the strings `v`.
pub fn listed(v: &Vec<String>, s: &str) -> (r: bool)
    ensures
        r == texts(v@).contains(s@),
{
    let mut i: usize = 0;
    while i < v.len()
        invariant
            i <= v.len(),
            forall|k: int| 0 <= k < i ==> texts(v@)[k] != s@,
        decreases v.len() - i,
    {
        if same(v[i].as_str(), s) {
            assert(texts(v@)[i as int] == s@);
            return true;
        }
        assert(texts(v@)[i as int] != s@);
        i = i + 1;
    }
    false
}

/// A copy of strings.
pub fn copies(v: &Vec<String>) -> (r: Vec<String>)
    ensures
        texts(r@) == texts(v@),
{
    let mut r: Vec<String> = Vec::new();
    let mut i: usize = 0;
    while i < v.len()
        invariant
            i <= v.len(),
            r@.len() == i,
            forall|k: int| 0 <= k < i ==> (#[trigger] r@[k])@ == v@[k]@,
        decreases v.len() - i,
    {
        r.push(v[i].as_str().to_owned());
        i = i + 1;
    }
    assert(texts(r@) =~= texts(v@));
    r
}

/// The lines of `v`.
pub fn lines_of(v: &Vec<char>) -> (r: Vec<Vec<char>>)
    ensures
        views(r@) == lines(v@),
{
    let mut out: Vec<Vec<char>> = Vec::new();
    let mut i: usize = 0;
    assert(v@.skip(0) == v@);
    assert(views(out@) + lines(v@) =~= lines(v@));
    while i < v.len()
        invariant
            i <= v.len(),
            views(out@) + lines(v@.skip(i as int)) == lines(v@),
        decreases v.len() - i,
    {
        let ghost rest = v@.skip(i as int);
        let ghost before = out@;
        let k = scan(v, '\n', i);
        if k < v.len() {
            let end = if k > i && v[k - 1] == '\r' {
                k - 1
            } else {
                k
            };
            let line = chars_between(v, i, end);
            proof {
                let n = until(rest, '\n') as int;
                assert(rest.take(n) == v@.subrange(i as int, k as int));
                assert(line@ =~= drop_return(rest.take(n)));
                assert(rest.skip(n + 1) == v@.skip(k + 1));
            }
            out.push(line);
            assert(views(out@) =~= views(before).push(line@));
            assert(views(out@) + lines(v@.skip(k + 1)) =~= views(before) + lines(rest));
            i = k + 1;
        } else {
            let line = chars_between(v, i, v.len());
            assert(line@ == rest);
            out.push(line);
            assert(views(out@) =~= views(before).push(line@));
            assert(v@.skip(v@.len() as int).len() == 0);
            assert(views(out@) + lines(v@.skip(v@.len() as int)) =~= views(before) + lines(rest));
            i = v.len();
        }
    }
    assert(lines(v@.skip(i as int)).len() == 0);
    assert(views(out@) =~= lines(v@));
    out
}

/// `s` with every occurrence of `p`, taken from the left and without overlap,
/// replaced by `by`. An empty `p` stands before, between and after all characters.
pub open spec fn replace(s: Seq<char>, p: Seq<char>, by: Seq<char>) -> Seq<char>
    decreases s.len(),
{
    if p.len() == 0 {
        if s.len() == 0 {
            by
        } else {
            by + seq![s[0]] + replace(s.skip(1), p, by)
        }
    } else if s.len() == 0 {
        s
    } else if has_prefix(s, p) {
        by + replace(s.skip(p.len() as int), p, by)
    } else {
        seq![s[0]] + replace(s.skip(1), p, by)
    }
}

/// `s` with every occurrence of `p` replaced by `by`.
pub fn replaced(s: &str, p: &str, by: &str) -> (r: String)
    ensures
        r@ == replace(s@, p@, by@),
{
    let v = chars_of(s);
    let q = chars_of(p);
    let mut out = String::new();
    let mut i: usize = 0;
    assert(v@.skip(0) == v@);
    assert(out@ + replace(v@, q@, by@) =~= replace(v@, q@, by@));
    while i < v.len()
        invariant
            i <= v.len(),
            v@ == s@,
            q@ == p@,
            out@ + replace(v@.skip(i as int), q@, by@) == replace(s@, p@, by@),
        decreases v.len() - i,
    {
        let ghost rest = v@.skip(i as int);
        let ghost before = out@;
        if q.len() == 0 {
            out.append(by);
            out.push(v[i]);
            assert(rest.skip(1) == v@.skip(i + 1));
            assert(out@ + replace(v@.skip(i + 1), q@, by@) =~= before + replace(rest, q@, by@));
            i = i + 1;
        } else if stands_at(&v, &q, i) {
            out.append(by);
            proof {
                assert(rest.subrange(0, q@.len() as int) == v@.subrange(i as int, i + q@.len()));
                assert(rest.skip(q@.len() as int) == v@.skip(i + q@.len()));
                assert(out@ + replace(v@.skip(i + q@.len()), q@, by@) =~= before + replace(
                    rest,
                    q@,
                    by@,
                ));
            }
            i = i + q.len();
        } else {
            out.push(v[i]);
            proof {
                if has_prefix(rest, q@) {
                    assert(rest.subrange(0, q@.len() as int) == v@.subrange(
                        i as int,
                        i + q@.len(),
                    ));
                }
                assert(rest.skip(1) == v@.skip(i + 1));
                assert(out@ + replace(v@.skip(i + 1), q@, by@) =~= before + replace(
                    rest,
                    q@,
                    by@,
                ));
            }
            i = i + 1;
        }
    }
    assert(v@.skip(i as int).len() == 0);
    if q.len() == 0 {
        out.append(by);
    }
    assert(out@ =~= replace(s@, p@, by@));
    out
}

/// The lower-case hexadecimal digit for `n`.
pub open spec fn hex_digit(n: int) -> char {
    if n < 10 {
        ('0' as u8 + n) as char
    } else {
        ('a' as u8 + n - 10) as char
    }
}

/// `n` in lower-case hexadecimal, in `width` digits.
pub open spec fn hex(n: nat, width: nat) -> Seq<char>
    decreases width,
{
    if width == 0 {
        Seq::empty()
    } else {
        hex(n / 16, (width - 1) as nat).push(hex_digit((n % 16) as int))
    }
}

/// A number in hexadecimal has as many digits as asked for.
pub proof fn lemma_hex_length(n: nat, width: nat)
    ensures
        hex(n, width).len() == width,
    decreases width,
{
    if width > 0 {
        lemma_hex_length(n / 16, (width - 1) as nat);
    }
}

/// `n` in lower-case hexadecimal, in `width` digits.
pub fn hex_of(n: u128, width: u32) -> (r: Vec<char>)
    ensures
        r@ == hex(n as nat, width as nat),
    decreases width,
{
    if width == 0 {
        Vec::new()
    } else {
        let mut v = hex_of(n / 16, width - 1);
        let d: u8 = (n % 16) as u8;
        let c: char = if d < 10 {
            (48 + d) as char
        } else {
            (87 + d) as char
        };
        v.push(c);
        v
    }
}

/// Whether `c` is a decimal digit.
pub open spec fn is_digit(c: char) -> bool {
    '0' <= c <= '9'
}

/// The number that the decimal digits `s` denote.
pub open spec fn decimal(s: Seq<char>) -> nat
    decreases s.len(),
{
    if s.len() == 0 {
        0
    } else {
        decimal(s.drop_last()) * 10 + (s.last() as u32 - '0' as u32) as nat
    }
}

/// Whether `s` holds decimal digits alone.
pub open spec fn all_digits(s: Seq<char>) -> bool {
    forall|i: int| 0 <= i < s.len() ==> is_digit(#[trigger] s[i])
}

/// `s` without a plus sign at its beginning.
pub open spec fn drop_plus(s: Seq<char>) -> Seq<char> {
    if s.len() > 0 && s[0] == '+' {
        s.skip(1)
    } else {
        s
    }
}

/// The natural number that `s` denotes, if it is at most `max`: one or more
/// decimal digits, after a plus sign if there is one.
pub open spec fn natural(s: Seq<char>, max: nat) -> Option<nat> {
    let d = drop_plus(s);
    if d.len() > 0 && all_digits(d) && decimal(d) <= max {
        Some(decimal(d))
    } else {
        None
    }
}

/// `n` in decimal digits.
pub open spec fn digits(n: nat) -> Seq<char>
    decreases n,
{
    if n < 10 {
        seq![hex_digit(n as int)]
    } else {
        digits(n / 10).push(hex_digit((n % 10) as int))
    }
}

/// The decimal digits of a number denote that number.
pub proof fn digits_denote(n: nat)
    ensures
        digits(n).len() > 0,
        all_digits(digits(n)),
        decimal(digits(n)) == n,
        drop_plus(digits(n)) == digits(n),
    decreases n,
{
    let d = digits(n);
    if n < 10 {
        assert(d.drop_last() =~= Seq::<char>::empty());
        assert(decimal(d.drop_last()) == 0);
    } else {
        digits_denote(n / 10);
        assert(d.drop_last() =~= digits(n / 10));
        assert(d[0] == digits(n / 10)[0]);
        assert(is_digit(digits(n / 10)[0]));
        assert forall|i: int| 0 <= i < d.len() implies is_digit(#[trigger] d[i]) by {
            if i < d.len() - 1 {
                assert(d[i] == digits(n / 10)[i]);
            }
        }
    }
}

/// `n` in decimal digits.
pub fn digits_of(n: u64) -> (r: String)
    ensures
        r@ == digits(n as nat),
    decreases n,
{
    let d: u8 = (n % 10) as u8;
    let last: char = (48 + d) as char;
    if n < 10 {
        let mut r = String::new();
        r.push(last);
        assert(r@ =~= digits(n as nat));
        r
    } else {
        let mut r = digits_of(n / 10);
        r.push(last);
        r
    }
}

/// A prefix of decimal digits denotes no more than the whole.
proof fn lemma_decimal_grows(s: Seq<char>, n: int)
    requires
        0 <= n <= s.len(),
        all_digits(s),
    ensures
        decimal(s.take(n)) <= decimal(s),
    decreases s.len() - n,
{
    if n < s.len() {
        lemma_decimal_grows(s, n + 1);
        assert(s.take(n + 1).drop_last() == s.take(n));
        assert(is_digit(s[n]));
    } else {
        assert(s.take(n) == s);
    }
}

/// The natural number that `v` denotes, if it is at most `max`.
pub fn natural_of(v: &Vec<char>, max: u64) -> (r: Option<u64>)
    ensures
        match r {
            Some(n) => natural(v@, max as nat) == Some(n as nat),
            None => natural(v@, max as nat) is None,
        },
{
    let from: usize = if v.len() > 0 && v[0] == '+' {
        1
    } else {
        0
    };
    if from == v.len() {
        return None;
    }
    let ghost d = v@.skip(from as int);
    assert(v@.skip(0) == v@);
    let mut n: u64 = 0;
    let mut i: usize = from;
    while i < v.len()
        invariant
            from <= i <= v.len(),
            d == v@.skip(from as int),
            d == drop_plus(v@),
            n == decimal(d.take(i - from)),
            n <= max,
            forall|k: int| 0 <= k < i - from ==> is_digit(#[trigger] d[k]),
        decreases v.len() - i,
    {
        let c: char = v[i];
        assert(d[i - from] == c);
        if c < '0' || c > '9' {
            assert(!is_digit(d[i - from]));
            return None;
        }
        let k: u64 = (c as u32 - '0' as u32) as u64;
        proof {
            assert(d.take(i + 1 - from).drop_last() == d.take(i - from));
            assert(decimal(d.take(i + 1 - from)) == n * 10 + k);
        }
        if k > max || n > (max - k) / 10 {
            proof {
                assert(n * 10 + k > max);
                if all_digits(d) {
                    lemma_decimal_grows(d, i + 1 - from);
                }
            }
            return None;
        }
        n = n * 10 + k;
        i = i + 1;
    }
    assert(d.take(d.len() as int) == d);
    Some(n)
}

/// The words of `s`: its longest parts without white space, in order.
pub open spec fn words(s: Seq<char>) -> Seq<Seq<char>>
    decreases s.len(),
{
    if s.len() == 0 {
        Seq::empty()
    } else if is_white(s[0]) {
        words(s.skip(1))
    } else {
        let k = word_length(s) as int;
        proof {
            lemma_word_length(s);
        }
        seq![s.take(k)] + words(s.skip(k))
    }
}

/// How many characters stand before the first white space of `s`.
pub open spec fn word_length(s: Seq<char>) -> nat
    decreases s.len(),
{
    if s.len() == 0 || is_white(s[0]) {
        0
    } else {
        1 + word_length(s.skip(1))
    }
}

/// A word is no longer than the text that it begins.
pub proof fn lemma_word_length(s: Seq<char>)
    ensures
        word_length(s) <= s.len(),
    decreases s.len(),
{
    if s.len() > 0 && !is_white(s[0]) {
        lemma_word_length(s.skip(1));
    }
}

/// The words of `v`.
pub fn words_of(v: &Vec<char>) -> (r: Vec<Vec<char>>)
    ensures
        views(r@) == words(v@),
{
    let mut out: Vec<Vec<char>> = Vec::new();
    let mut i: usize = 0;
    assert(v@.skip(0) == v@);
    assert(views(out@) + words(v@) =~= words(v@));
    while i < v.len()
        invariant
            i <= v.len(),
            views(out@) + words(v@.skip(i as int)) == words(v@),
        decreases v.len() - i,
    {
        let ghost rest = v@.skip(i as int);
        let ghost before = out@;
        if white(v[i]) {
            assert(rest.skip(1) == v@.skip(i + 1));
            i = i + 1;
        } else {
            let mut k: usize = i;
            while k < v.len() && !white(v[k])
                invariant
                    i <= k <= v.len(),
                    rest == v@.skip(i as int),
                    word_length(rest) == (k - i) + word_length(v@.skip(k as int)),
                decreases v.len() - k,
            {
                assert(v@.skip(k as int).skip(1) == v@.skip(k + 1));
                k = k + 1;
            }
            let w = chars_between(v, i, k);
            assert(word_length(v@.skip(k as int)) == 0);
            assert(w@ == rest.take(k - i));
            assert(rest.skip(k - i) == v@.skip(k as int));
            assert(word_length(rest) > 0);
            out.push(w);
            assert(views(out@) =~= views(before).push(w@));
            assert(views(out@) + words(v@.skip(k as int)) =~= views(before) + words(rest));
            i = k;
        }
    }
    assert(words(v@.skip(i as int)).len() == 0);
    assert(views(out@) =~= words(v@));
    out
}

} // verus!
