//! What cutting, searching and replacing text comes to.

use vstd::prelude::*;

use crate::path::first_true;
use crate::text::{
    digits, digits_denote, drop_return, find_from, has_prefix, hex, is_digit, is_white, lemma_find,
    lemma_until, lines, lower, natural, occurs_at, replace, texts, trim, trim_both, trim_left,
    trim_right, until, without, word_length, words, Class,
};

verus! {

/// Whether all characters of `s` belong to `class`.
pub open spec fn all_in(s: Seq<char>, class: Class) -> bool {
    forall|i: int| 0 <= i < s.len() ==> class.holds(#[trigger] s[i])
}

/// Trimming at the left takes away what belongs to the class, up to the first character that
/// does not.
pub proof fn left_edge_is_taken(w: Seq<char>, x: Seq<char>, class: Class)
    requires
        all_in(w, class),
        x.len() > 0 ==> !class.holds(x[0]),
    ensures
        trim_left(w + x, class) == x,
    decreases w.len(),
{
    if w.len() > 0 {
        assert((w + x)[0] == w[0]);
        assert((w + x).skip(1) =~= w.skip(1) + x);
        left_edge_is_taken(w.skip(1), x, class);
    } else {
        assert(w + x =~= x);
    }
}

/// Trimming at the right takes away what belongs to the class, back to the last character
/// that does not.
pub proof fn right_edge_is_taken(x: Seq<char>, w: Seq<char>, class: Class)
    requires
        all_in(w, class),
        x.len() > 0 ==> !class.holds(x.last()),
    ensures
        trim_right(x + w, class) == x,
    decreases w.len(),
{
    if w.len() > 0 {
        assert((x + w).last() == w[w.len() - 1]);
        assert((x + w).drop_last() =~= x + w.drop_last());
        right_edge_is_taken(x, w.drop_last(), class);
    } else {
        assert(x + w =~= x);
    }
}

/// Trimming takes away both edges and nothing in between.
pub proof fn both_edges_are_taken(w: Seq<char>, x: Seq<char>, v: Seq<char>, class: Class)
    requires
        all_in(w, class),
        all_in(v, class),
        x.len() > 0 ==> !class.holds(x[0]) && !class.holds(x.last()),
    ensures
        trim_both(w + x + v, class) == x,
        class is White ==> trim(w + x + v) == x,
{
    if x.len() > 0 {
        assert(w + x + v =~= w + (x + v));
        assert((x + v)[0] == x[0]);
        left_edge_is_taken(w, x + v, class);
        right_edge_is_taken(x, v, class);
    } else {
        let none = Seq::<char>::empty();
        assert(w + x + v =~= (w + v) + none);
        left_edge_is_taken(w + v, none, class);
        assert(x =~= none);
    }
}

/// Of the ASCII characters the space and those from the tabulator to the carriage return are
/// white space.
pub proof fn ascii_white_space(c: char)
    requires
        c < '\u{80}',
    ensures
        is_white(c) <==> c == ' ' || '\t' <= c <= '\r',
{
}

/// Letters become lower case one by one; all else stays.
pub proof fn case_is_lowered(s: Seq<char>, i: int)
    requires
        0 <= i < s.len(),
    ensures
        lower(s).len() == s.len(),
        'A' <= s[i] <= 'Z' ==> lower(s)[i] as int == s[i] as int + 32,
        !('A' <= s[i] <= 'Z') ==> lower(s)[i] == s[i],
{
}

/// A text is its first line, an end of line, and the lines that follow; a carriage return
/// before the end of line belongs to it, and a text without an end of line is one line.
pub proof fn lines_are_cut_at_their_ends(a: Seq<char>, b: Seq<char>)
    requires
        forall|i: int| 0 <= i < a.len() ==> a[i] != '\n',
    ensures
        lines(a + seq!['\n'] + b) == seq![drop_return(a)] + lines(b),
        lines((a + seq!['\r']) + seq!['\n'] + b) == seq![a] + lines(b),
        a.len() > 0 ==> lines(a) == seq![a],
        a.len() > 0 && a.last() != '\r' ==> drop_return(a) == a,
        lines(Seq::<char>::empty()) == Seq::<Seq<char>>::empty(),
{
    lemma_line(a, b);
    let r = a + seq!['\r'];
    lemma_line(r, b);
    assert(r.drop_last() =~= a);
    lemma_until(a, '\n');
}

/// A first line that holds no end of line.
proof fn lemma_line(a: Seq<char>, b: Seq<char>)
    requires
        forall|i: int| 0 <= i < a.len() ==> a[i] != '\n',
    ensures
        lines(a + seq!['\n'] + b) == seq![drop_return(a)] + lines(b),
{
    let s = a + seq!['\n'] + b;
    lemma_until(s, '\n');
    let k = until(s, '\n') as int;
    assert(s[a.len() as int] == '\n');
    if k < a.len() {
        assert(s[k] == a[k]);
    }
    assert(k == a.len());
    assert(s.take(k) =~= a);
    assert(s.skip(k + 1) =~= b);
}

/// White space before a word is passed over, and a word ends before white space.
pub proof fn words_are_cut_at_white_space(w: Seq<char>, x: Seq<char>, rest: Seq<char>)
    requires
        all_in(w, Class::White),
        x.len() > 0,
        forall|i: int| 0 <= i < x.len() ==> !is_white(#[trigger] x[i]),
        rest.len() > 0 ==> is_white(rest[0]),
    ensures
        words(w + x + rest) == seq![x] + words(rest),
        words(w) == Seq::<Seq<char>>::empty(),
    decreases w.len(),
{
    if w.len() > 0 {
        let s = w + x + rest;
        assert(s[0] == w[0]);
        assert(s.skip(1) =~= w.skip(1) + x + rest);
        words_are_cut_at_white_space(w.skip(1), x, rest);
    } else {
        let s = w + x + rest;
        assert(s =~= x + rest);
        assert(s[0] == x[0]);
        lemma_word(x, rest);
        assert(s.take(x.len() as int) =~= x);
        assert(s.skip(x.len() as int) =~= rest);
    }
}

/// A word reaches to the first white space.
proof fn lemma_word(x: Seq<char>, rest: Seq<char>)
    requires
        forall|i: int| 0 <= i < x.len() ==> !is_white(#[trigger] x[i]),
        rest.len() > 0 ==> is_white(rest[0]),
    ensures
        word_length(x + rest) == x.len(),
    decreases x.len(),
{
    if x.len() > 0 {
        assert((x + rest)[0] == x[0]);
        assert((x + rest).skip(1) =~= x.skip(1) + rest);
        lemma_word(x.skip(1), rest);
    } else {
        assert(x + rest =~= rest);
    }
}

/// What is replaced is what is sought, from the left: up to its first occurrence a text stays
/// as it is, the occurrence is replaced, and so on with what follows; a text without an
/// occurrence stays as it is.
pub proof fn occurrences_are_replaced(a: Seq<char>, p: Seq<char>, b: Seq<char>, by: Seq<char>)
    requires
        p.len() > 0,
    ensures
        find_from(a + p + b, p, 0) == Some(a.len() as int) ==> replace(a + p + b, p, by) == a + by
            + replace(b, p, by),
        find_from(a, p, 0) is None ==> replace(a, p, by) == a,
    decreases a.len(),
{
    let s = a + p + b;
    if a.len() == 0 {
        assert(s.subrange(0, p.len() as int) =~= p);
        assert(s.skip(p.len() as int) =~= b);
        assert(a + by + replace(b, p, by) =~= by + replace(b, p, by));
    } else {
        let t = a.skip(1);
        assert(s.skip(1) =~= t + p + b);
        occurrences_are_replaced(t, p, b, by);
        lemma_find(s, p, 0);
        lemma_find(t + p + b, p, 0);
        lemma_find(a, p, 0);
        lemma_find(t, p, 0);
        if find_from(s, p, 0) == Some(a.len() as int) {
            assert(!occurs_at(s, p, 0));
            assert((t + p + b).subrange(t.len() as int, (t.len() + p.len()) as int) =~= p);
            assert(occurs_at(t + p + b, p, t.len() as int));
            assert forall|j: int| 0 <= j < t.len() implies !occurs_at(t + p + b, p, j) by {
                assert(!occurs_at(s, p, j + 1));
                assert(s.subrange(j + 1, j + 1 + p.len()) =~= (t + p + b).subrange(j, j + p.len()));
            }
            assert(find_from(t + p + b, p, 0) == Some(t.len() as int));
            assert(s[0] == a[0]);
            assert(seq![a[0]] + (t + by + replace(b, p, by)) =~= a + by + replace(b, p, by));
        }
        if find_from(a, p, 0) is None {
            assert(!occurs_at(a, p, 0));
            assert forall|j: int| 0 <= j implies !occurs_at(t, p, j) by {
                assert(!occurs_at(a, p, j + 1));
                if j + p.len() <= t.len() {
                    assert(a.subrange(j + 1, j + 1 + p.len()) =~= t.subrange(j, j + p.len()));
                }
            }
            assert(find_from(t, p, 0) is None);
            assert(seq![a[0]] + t =~= a);
        }
    }
}

/// Every prefix of a kind is dropped, however often it stands there, and nothing else.
pub proof fn prefixes_are_dropped(p: Seq<char>, s: Seq<char>)
    ensures
        without(p + s, p) == without(s, p),
        !has_prefix(s, p) ==> without(s, p) == s,
        p.len() > 0 ==> !has_prefix(without(s, p), p),
    decreases s.len(),
{
    if p.len() > 0 {
        assert((p + s).subrange(0, p.len() as int) =~= p);
        assert((p + s).skip(p.len() as int) =~= s);
        if has_prefix(s, p) {
            prefixes_are_dropped(p, s.skip(p.len() as int));
        }
    } else {
        assert(p + s =~= s);
    }
}

/// A number in decimal digits is read as that number if it is not too large; a plus sign
/// before it does not matter, and what is no digit or nothing at all is no number.
pub proof fn written_numbers_are_read(n: nat, max: nat, s: Seq<char>, i: int)
    ensures
        n <= max ==> natural(digits(n), max) == Some(n) && natural(seq!['+'] + digits(n), max)
            == Some(n),
        n > max ==> natural(digits(n), max) is None,
        s.len() == 0 ==> natural(s, max) is None,
        0 <= i < s.len() && !is_digit(s[i]) && !(i == 0 && s[i] == '+') ==> natural(s, max) is None,
{
    digits_denote(n);
    assert((seq!['+'] + digits(n)).skip(1) =~= digits(n));
    if 0 <= i < s.len() && !is_digit(s[i]) && !(i == 0 && s[i] == '+') {
        if s[0] == '+' {
            assert(s.skip(1)[i - 1] == s[i]);
        }
    }
}

/// Every digit of a number in hexadecimal is one of `0` to `9` and `a` to `f`.
pub proof fn hexadecimal_digits(n: nat, width: nat, i: int)
    requires
        0 <= i < hex(n, width).len(),
    ensures
        '0' <= hex(n, width)[i] <= '9' || 'a' <= hex(n, width)[i] <= 'f',
    decreases width,
{
    if width > 0 {
        let before = hex(n / 16, (width - 1) as nat);
        if i < before.len() {
            assert(hex(n, width)[i] == before[i]);
            hexadecimal_digits(n / 16, (width - 1) as nat, i);
        }
    }
}

/// The first of the positions that count is found, and none only if none counts.
pub proof fn first_position_is_found(v: Seq<bool>)
    ensures
        match first_true(v) {
            Some(i) => 0 <= i < v.len() && v[i] && forall|j: int| 0 <= j < i ==> !v[j],
            None => forall|j: int| 0 <= j < v.len() ==> !v[j],
        },
    decreases v.len(),
{
    if v.len() > 0 && !v[0] {
        let t = v.skip(1);
        first_position_is_found(t);
        match first_true(t) {
            Some(i) => {
                assert forall|j: int| 0 <= j < i + 1 implies !v[j] by {
                    if j > 0 {
                        assert(t[j - 1] == v[j]);
                    }
                }
            },
            None => {
                assert forall|j: int| 0 <= j < v.len() implies !v[j] by {
                    if j > 0 {
                        assert(t[j - 1] == v[j]);
                    }
                }
            },
        }
    }
}

/// The texts of strings are all of them, in order.
pub proof fn texts_are_those_of_the_strings(v: Seq<String>, i: int)
    ensures
        texts(v).len() == v.len(),
        0 <= i < v.len() ==> texts(v)[i] == v[i]@,
{
}

/// Each class holds its own characters: both separators of paths, the carriage return, the
/// double quote, and the 25 characters that Unicode calls white space.
pub proof fn classes_hold_their_characters(c: char)
    ensures
        Class::Slash.holds(c) <==> c == '/' || c == '\\',
        Class::Return.holds(c) <==> c == '\r',
        Class::Quote.holds(c) <==> c == '"',
        Class::White.holds(c) <==> c == ' ' || '\t' <= c <= '\r' || c == '\u{85}' || c == '\u{a0}'
            || c == '\u{1680}' || '\u{2000}' <= c <= '\u{200a}' || c == '\u{2028}' || c
            == '\u{2029}' || c == '\u{202f}' || c == '\u{205f}' || c == '\u{3000}',
{
}

} // verus!
