//! Laws of texts: trimming, searching, cutting, lines, words and numbers.
use vstd::prelude::*;

use crate::text::{
    all_digits, begins, blank, cut_at, decimal, digits_value, ends, includes, int_value, is_digit,
    is_space, line_list, next_of, next_of_bounds, occurs_at, pieces, trim_left, trim_right,
    trimmed, word_end, word_end_bounds, words, words_from,
};

verus! {

/// The blanks, tabs and line ends of ASCII are white space, and none of its
/// printed characters is.
pub proof fn printed_characters_are_no_space(c: char)
    ensures
        is_space(' ') && is_space('\t') && is_space('\n') && is_space('\r'),
        0x21 <= c as u32 <= 0x7e ==> !is_space(c),
        (c as u32) < 9 ==> !is_space(c),
{
}

proof fn trimmed_left(s: Seq<char>) -> (k: int)
    ensures
        0 <= k <= s.len(),
        trim_left(s) == s.skip(k),
        forall|i: int| 0 <= i < k ==> is_space(#[trigger] s[i]),
        k < s.len() ==> !is_space(s[k]),
    decreases s.len(),
{
    if s.len() > 0 && is_space(s[0]) {
        let k = trimmed_left(s.skip(1));
        assert(s.skip(1).skip(k) =~= s.skip(k + 1));
        assert forall|i: int| 0 <= i < k + 1 implies is_space(#[trigger] s[i]) by {
            if i > 0 {
                assert(s.skip(1)[i - 1] == s[i]);
            }
        }
        k + 1
    } else {
        assert(s.skip(0) =~= s);
        0
    }
}

proof fn trimmed_right(s: Seq<char>) -> (k: int)
    ensures
        0 <= k <= s.len(),
        trim_right(s) == s.take(k),
        forall|i: int| k <= i < s.len() ==> is_space(#[trigger] s[i]),
        k > 0 ==> !is_space(s[k - 1]),
    decreases s.len(),
{
    if s.len() > 0 && is_space(s.last()) {
        let d = s.drop_last();
        let k = trimmed_right(d);
        assert(d.take(k) =~= s.take(k));
        assert forall|i: int| k <= i < s.len() implies is_space(#[trigger] s[i]) by {
            if i < d.len() {
                assert(d[i] == s[i]);
            }
        }
        k
    } else {
        assert(s.take(s.len() as int) =~= s);
        s.len() as int
    }
}

/// Trimming takes white space from both ends and nothing else: what is left
/// stands in the text, with white space alone around it, and neither begins nor
/// ends with any.
pub proof fn trimming_takes_only_the_ends(s: Seq<char>) -> (at: (int, int))
    ensures
        0 <= at.0 <= at.1 <= s.len(),
        trimmed(s) == s.subrange(at.0, at.1),
        blank(s.take(at.0)),
        blank(s.skip(at.1)),
        trimmed(s).len() > 0 ==> !is_space(trimmed(s)[0]) && !is_space(trimmed(s).last()),
{
    let a = trimmed_left(s);
    let rest = s.skip(a);
    let b = trimmed_right(rest);
    assert(rest.take(b) =~= s.subrange(a, a + b));
    assert forall|i: int| 0 <= i < s.skip(a + b).len() implies is_space(
        #[trigger] s.skip(a + b)[i],
    ) by {
        assert(s.skip(a + b)[i] == rest[b + i]);
    }
    (a, a + b)
}

/// A text is found wherever it stands, at the beginning and at the end where it
/// stands there, and never in a shorter one.
pub proof fn texts_are_found_where_they_stand(
    before: Seq<char>,
    needle: Seq<char>,
    after: Seq<char>,
    hay: Seq<char>,
)
    ensures
        includes(before + needle + after, needle),
        begins(needle + after, needle),
        ends(before + needle, needle),
        includes(hay, needle) ==> needle.len() <= hay.len(),
        begins(hay, needle) <==> needle.is_prefix_of(hay),
        ends(hay, needle) <==> needle.is_suffix_of(hay),
        begins(hay, needle) || ends(hay, needle) ==> includes(hay, needle),
{
    let all = before + needle + after;
    assert(all.subrange(before.len() as int, (before.len() + needle.len()) as int) =~= needle);
    assert(occurs_at(all, needle, before.len() as int));
    let front = needle + after;
    assert(front.subrange(0, needle.len() as int) =~= needle);
    let back = before + needle;
    assert(back.subrange(back.len() - needle.len(), back.len() as int) =~= needle);
    if includes(hay, needle) {
        let at = choose|at: int| occurs_at(hay, needle, at);
        assert(occurs_at(hay, needle, at));
    }
    if begins(hay, needle) {
        assert(occurs_at(hay, needle, 0));
    }
    if ends(hay, needle) {
        assert(occurs_at(hay, needle, hay.len() - needle.len()));
    }
}

/// A text is cut at its first mark: what stands before has none, and the two
/// parts around the mark are the text; without a mark it is not cut.
pub proof fn cuts_are_at_the_first_mark(s: Seq<char>, c: char)
    ensures
        cut_at(s, c) is None <==> !s.contains(c),
        cut_at(s, c) is Some ==> ({
            let (a, b) = cut_at(s, c).unwrap();
            s == a + seq![c] + b && !a.contains(c)
        }),
{
    next_of_bounds(s, c, 0);
    let k = next_of(s, c, 0);
    if k < s.len() {
        assert(s[k] == c);
        assert(s.take(k) + seq![c] + s.skip(k + 1) =~= s);
        if s.take(k).contains(c) {
            let i = choose|i: int| 0 <= i < k && s.take(k)[i] == c;
            assert(s[i] == c);
        }
    } else if s.contains(c) {
        let i = choose|i: int| 0 <= i < s.len() && s[i] == c;
        assert(s[i] == c);
    }
}

proof fn first_mark(a: Seq<char>, c: char, b: Seq<char>, from: int)
    requires
        !a.contains(c),
        0 <= from <= a.len(),
    ensures
        next_of(a + seq![c] + b, c, from) == a.len(),
    decreases a.len() - from,
{
    let s = a + seq![c] + b;
    if from < a.len() {
        assert(s[from] == a[from]);
        assert(a.contains(a[from]));
        first_mark(a, c, b, from + 1);
    } else {
        assert(s[from] == c);
    }
}

/// A text is cut at every mark: a part without marks stands as it is, and each
/// mark begins another.
pub proof fn marks_part_the_pieces(a: Seq<char>, c: char, b: Seq<char>)
    requires
        !a.contains(c),
    ensures
        pieces(a, c) == seq![a],
        pieces(a + seq![c] + b, c) == seq![a] + pieces(b, c),
{
    cuts_are_at_the_first_mark(a, c);
    next_of_bounds(a, c, 0);
    let s = a + seq![c] + b;
    first_mark(a, c, b, 0);
    assert(s.take(a.len() as int) =~= a);
    assert(s.skip(a.len() as int + 1) =~= b);
}

/// The lines of a text are what stands between its line feeds: a text without
/// any is one line, each line feed ends one, with the carriage return before it,
/// and an empty text has none.
pub proof fn line_feeds_end_lines(a: Seq<char>, b: Seq<char>)
    requires
        !a.contains('\n'),
    ensures
        line_list(Seq::<char>::empty()).len() == 0,
        a.len() > 0 ==> line_list(a) == seq![a],
        (a.len() == 0 || a.last() != '\r') ==> line_list(a + seq!['\n'] + b) == seq![a] + line_list(
            b,
        ),
        line_list(a.push('\r') + seq!['\n'] + b) == seq![a] + line_list(b),
{
    cuts_are_at_the_first_mark(a, '\n');
    next_of_bounds(a, '\n', 0);
    let s = a + seq!['\n'] + b;
    first_mark(a, '\n', b, 0);
    assert(s.take(a.len() as int) =~= a);
    assert(s.skip(a.len() as int + 1) =~= b);
    let r = a.push('\r');
    if r.contains('\n') {
        let i = choose|i: int| 0 <= i < r.len() && r[i] == '\n';
        assert(a[i] == '\n');
    }
    let t = r + seq!['\n'] + b;
    first_mark(r, '\n', b, 0);
    assert(t.take(r.len() as int) =~= r);
    assert(t.skip(r.len() as int + 1) =~= b);
    assert(r.drop_last() =~= a);
}

proof fn words_of_the_rest(s: Seq<char>, from: int, i: int)
    requires
        0 <= from <= s.len(),
        0 <= i < words_from(s, from).len(),
    ensures
        words_from(s, from)[i].len() > 0,
        forall|k: int|
            0 <= k < words_from(s, from)[i].len() ==> !is_space(
                #[trigger] words_from(s, from)[i][k],
            ),
        includes(s, words_from(s, from)[i]),
    decreases s.len() - from,
{
    word_end_bounds(s, from);
    if from < s.len() {
        if is_space(s[from]) {
            words_of_the_rest(s, from + 1, i);
        } else {
            let end = word_end(s, from);
            let w = s.subrange(from, end);
            if i == 0 {
                assert(words_from(s, from)[0] == w);
                assert(occurs_at(s, w, from));
                assert forall|k: int| 0 <= k < w.len() implies !is_space(#[trigger] w[k]) by {
                    assert(w[k] == s[from + k]);
                }
            } else {
                words_of_the_rest(s, end, i - 1);
                assert(words_from(s, from)[i] == words_from(s, end)[i - 1]);
            }
        }
    }
}

/// Every word stands in the text, holds at least one character, and none of them
/// is white space.
pub proof fn words_have_no_space(s: Seq<char>, i: int)
    requires
        0 <= i < words(s).len(),
    ensures
        words(s)[i].len() > 0,
        forall|k: int| 0 <= k < words(s)[i].len() ==> !is_space(#[trigger] words(s)[i][k]),
        includes(s, words(s)[i]),
{
    words_of_the_rest(s, 0, i);
}

proof fn no_words_in_blanks(s: Seq<char>, from: int)
    requires
        0 <= from <= s.len(),
    ensures
        words_from(s, from).len() == 0 <==> forall|k: int|
            from <= k < s.len() ==> is_space(#[trigger] s[k]),
    decreases s.len() - from,
{
    word_end_bounds(s, from);
    if from < s.len() {
        if is_space(s[from]) {
            no_words_in_blanks(s, from + 1);
        } else {
            assert(words_from(s, from).len() > 0);
            assert(!is_space(s[from]));
        }
    }
}

proof fn one_word(s: Seq<char>, from: int)
    requires
        0 <= from <= s.len(),
        forall|k: int| 0 <= k < s.len() ==> !is_space(#[trigger] s[k]),
    ensures
        word_end(s, from) == s.len(),
    decreases s.len() - from,
{
    if from < s.len() {
        one_word(s, from + 1);
    }
}

/// A blank text has no word, and a text without white space is one.
pub proof fn blank_texts_have_no_word(s: Seq<char>)
    ensures
        words(s).len() == 0 <==> blank(s),
        s.len() > 0 && (forall|k: int| 0 <= k < s.len() ==> !is_space(#[trigger] s[k])) ==> words(s)
            == seq![s],
{
    no_words_in_blanks(s, 0);
    if s.len() > 0 && (forall|k: int| 0 <= k < s.len() ==> !is_space(#[trigger] s[k])) {
        one_word(s, 0);
        assert(s.subrange(0, s.len() as int) =~= s);
        assert(words_from(s, s.len() as int).len() == 0);
        assert(words(s) =~= seq![s]);
    }
}

/// A number is read from its digits, the last of them the units, with a sign
/// before them or without; any other text is none.
pub proof fn numbers_are_read_from_digits(d: Seq<char>, c: char, s: Seq<char>)
    requires
        d.len() > 0,
        all_digits(d),
    ensures
        int_value(d) == Some(digits_value(d) as int),
        int_value(seq!['-'] + d) == Some(-(digits_value(d) as int)),
        int_value(seq!['+'] + d) == Some(digits_value(d) as int),
        is_digit(c) <==> '0' <= c <= '9',
        is_digit(c) ==> digits_value(d.push(c)) == digits_value(d) * 10 + (c as u32 - '0' as u32),
        int_value(Seq::<char>::empty()) is None,
        int_value(s) is Some ==> s.len() > 0 && (is_digit(s[0]) || s[0] == '-' || s[0] == '+')
            && is_digit(s.last()),
{
    assert((seq!['-'] + d).skip(1) =~= d);
    assert((seq!['+'] + d).skip(1) =~= d);
    assert(is_digit(d[0]));
    assert(d.push(c).drop_last() =~= d);
    if int_value(s) is Some {
        if s[0] == '-' || s[0] == '+' {
            let r = s.skip(1);
            assert(is_digit(r[r.len() - 1]));
            assert(r.last() == s.last());
        } else {
            assert(is_digit(s[0]));
            assert(is_digit(s[s.len() - 1]));
        }
    }
}

/// A number is written in digits, without a zero in front, the last digit its
/// units.
pub proof fn numbers_are_written_in_digits(n: nat)
    ensures
        decimal(n).len() > 0,
        all_digits(decimal(n)),
        digits_value(decimal(n)) == n,
        n > 0 ==> decimal(n)[0] != '0',
        n == 0 ==> decimal(n) == seq!['0'],
    decreases n,
{
    if n >= 10 {
        numbers_are_written_in_digits(n / 10);
        let s = decimal(n);
        let d = decimal(n / 10);
        assert(s.drop_last() =~= d);
        assert forall|i: int| 0 <= i < s.len() implies is_digit(#[trigger] s[i]) by {
            if i < d.len() {
                assert(is_digit(d[i]));
            }
        }
    } else {
        let s = decimal(n);
        assert(s.drop_last() =~= Seq::<char>::empty());
        assert(digits_value(s.drop_last()) == 0);
    }
}

}
