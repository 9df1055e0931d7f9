//! What holds of the ways in which text is taken apart and numbers are
//! written: each is told by what goes in and what comes out.

use vstd::prelude::*;

use crate::text::{
    cut_once, decimal, digits, first_at, integer, is_digit, is_space, lemma_cut_at_first,
    lemma_decimal_is_read_back, lemma_word_behind, length, number, pieces, spaceless, trimmed,
    without_leading, without_trailing, words,
};

verus! {

/// A text is cut at the first `c`: of a text without `c`, a `c` and anything
/// behind it, what stands before and what stands behind come apart.
pub proof fn texts_are_cut_at_the_first(before: Seq<char>, c: char, behind: Seq<char>)
    requires
        !before.contains(c),
    ensures
        cut_once(before + seq![c] + behind, c) == Some((before, behind)),
        cut_once(before, c) is None,
{
    let s = before + seq![c] + behind;
    let i = before.len() as int;
    assert forall|j: int| 0 <= j < i implies s[j] != c by {
        assert(s[j] == before[j]);
    }
    assert(first_at(s, c, i));
    lemma_cut_at_first(s, c, i);
    assert(s.take(i) == before);
    assert(s.skip(i + 1) == behind);
}

/// Texts put one behind another, a `c` between each and the next.
pub open spec fn joined(list: Seq<Seq<char>>, c: char) -> Seq<char>
    decreases list.len(),
{
    if list.len() == 0 {
        Seq::empty()
    } else if list.len() == 1 {
        list[0]
    } else {
        joined(list.drop_last(), c) + seq![c] + list.last()
    }
}

/// The pieces of a text between one `c` and the next hold no `c`, and put
/// together again with a `c` between them they are the text.
pub proof fn pieces_are_put_together_again(s: Seq<char>, c: char)
    ensures
        pieces(s, c).len() > 0,
        forall|i: int| 0 <= i < pieces(s, c).len() ==> !(#[trigger] pieces(s, c)[i]).contains(c),
        joined(pieces(s, c), c) == s,
    decreases s.len(),
{
    let all = pieces(s, c);
    if s.len() == 0 {
        assert(all == seq![s]);
    } else {
        let front = s.drop_last();
        let rest = pieces(front, c);
        pieces_are_put_together_again(front, c);
        assert(front.push(s.last()) == s);
        if s.last() == c {
            assert(all.drop_last() == rest);
            assert(all.last() == Seq::<char>::empty());
            assert(joined(all, c) == s);
            assert forall|i: int| 0 <= i < all.len() implies !(#[trigger] all[i]).contains(c) by {
                if i < rest.len() {
                    assert(all[i] == rest[i]);
                }
            }
        } else {
            let last = rest.last().push(s.last());
            assert(all.drop_last() == rest.drop_last());
            assert(all.last() == last);
            if rest.len() > 1 {
                assert(joined(all, c) == joined(rest.drop_last(), c) + seq![c] + last);
            }
            assert(joined(all, c) == s);
            assert(!rest[rest.len() - 1].contains(c));
            assert forall|i: int| 0 <= i < all.len() implies !(#[trigger] all[i]).contains(c) by {
                if i < rest.len() - 1 {
                    assert(all[i] == rest[i]);
                } else {
                    assert forall|j: int| 0 <= j < last.len() implies last[j] != c by {
                        if j < rest.last().len() {
                            assert(rest.last()[j] == last[j]);
                            assert(rest.last().contains(rest.last()[j]));
                        }
                    }
                }
            }
        }
    }
}

/// `n` times `c`.
pub open spec fn repeated(c: char, n: nat) -> Seq<char> {
    Seq::new(n, |i: int| c)
}

proof fn lemma_leading(n: nat, rest: Seq<char>, c: char)
    ensures
        without_leading(repeated(c, n) + rest, c) == without_leading(rest, c),
    decreases n,
{
    let lead = repeated(c, n);
    if n == 0 {
        assert(lead + rest == rest);
    } else {
        lemma_leading((n - 1) as nat, rest, c);
        assert((lead + rest).drop_first() == repeated(c, (n - 1) as nat) + rest);
    }
}

proof fn lemma_trailing(n: nat, rest: Seq<char>, c: char)
    ensures
        without_trailing(rest + repeated(c, n), c) == without_trailing(rest, c),
    decreases n,
{
    let tail = repeated(c, n);
    if n == 0 {
        assert(rest + tail == rest);
    } else {
        lemma_trailing((n - 1) as nat, rest, c);
        assert((rest + tail).drop_last() == rest + repeated(c, (n - 1) as nat));
    }
}

/// However many `c`s stand at either end of a text, they go, and nothing
/// else does.
pub proof fn ends_are_trimmed(lead: nat, core: Seq<char>, trail: nat, c: char)
    requires
        core.len() > 0 ==> core[0] != c && core.last() != c,
    ensures
        trimmed(repeated(c, lead) + core + repeated(c, trail), c) == core,
{
    let front = repeated(c, lead);
    let tail = repeated(c, trail);
    assert(front + core + tail == front + (core + tail));
    lemma_leading(lead, core + tail, c);
    if core.len() == 0 {
        assert(core + tail == tail + core);
        lemma_leading(trail, core, c);
    } else {
        assert(without_leading(core + tail, c) == core + tail);
        lemma_trailing(trail, core, c);
    }
}

/// Every text is some `c`s, what trimming leaves of it, and some `c`s.
pub proof fn trimming_takes_only_the_ends(s: Seq<char>, c: char)
    ensures
        exists|lead: nat, trail: nat|
            s == #[trigger] repeated(c, lead) + trimmed(s, c) + #[trigger] repeated(c, trail),
        trimmed(s, c).len() > 0 ==> trimmed(s, c)[0] != c && trimmed(s, c).last() != c,
{
    let a = lemma_lead_of(s, c);
    let mid = without_leading(s, c);
    let b = lemma_trail_of(mid, c);
    let core = trimmed(s, c);
    assert(s == repeated(c, a) + core + repeated(c, b));
    if core.len() > 0 {
        assert(mid[0] == core[0]);
    }
}

proof fn lemma_lead_of(s: Seq<char>, c: char) -> (n: nat)
    ensures
        s == repeated(c, n) + without_leading(s, c),
        without_leading(s, c).len() > 0 ==> without_leading(s, c)[0] != c,
    decreases s.len(),
{
    if s.len() > 0 && s[0] == c {
        let n = lemma_lead_of(s.drop_first(), c);
        assert(s == repeated(c, n + 1) + without_leading(s, c)) by {
            assert(s == seq![c] + s.drop_first());
        }
        n + 1
    } else {
        assert(s == repeated(c, 0) + s);
        0
    }
}

proof fn lemma_trail_of(s: Seq<char>, c: char) -> (n: nat)
    ensures
        s == without_trailing(s, c) + repeated(c, n),
        without_trailing(s, c).len() > 0 ==> without_trailing(s, c).last() != c,
    decreases s.len(),
{
    if s.len() > 0 && s.last() == c {
        let n = lemma_trail_of(s.drop_last(), c);
        assert(s == without_trailing(s, c) + repeated(c, n + 1)) by {
            assert(s == s.drop_last() + seq![c]);
        }
        n + 1
    } else {
        assert(s == s + repeated(c, 0));
        0
    }
}

/// White space is these characters and no other: tab to carriage return,
/// space, next line, the spaces of fixed width, the line and paragraph
/// separators.
pub proof fn white_space_is_these(c: char)
    ensures
        is_space(c) <==> seq![
            '\u{9}', '\u{a}', '\u{b}', '\u{c}', '\u{d}', ' ', '\u{85}', '\u{a0}', '\u{1680}',
            '\u{2000}', '\u{2001}', '\u{2002}', '\u{2003}', '\u{2004}', '\u{2005}', '\u{2006}',
            '\u{2007}', '\u{2008}', '\u{2009}', '\u{200a}', '\u{2028}', '\u{2029}', '\u{202f}',
            '\u{205f}', '\u{3000}',
        ].contains(c),
{
    let all = seq![
        '\u{9}', '\u{a}', '\u{b}', '\u{c}', '\u{d}', ' ', '\u{85}', '\u{a0}', '\u{1680}',
        '\u{2000}', '\u{2001}', '\u{2002}', '\u{2003}', '\u{2004}', '\u{2005}', '\u{2006}',
        '\u{2007}', '\u{2008}', '\u{2009}', '\u{200a}', '\u{2028}', '\u{2029}', '\u{202f}',
        '\u{205f}', '\u{3000}',
    ];
    assert(all[0] == '\u{9}' && all[1] == '\u{a}' && all[2] == '\u{b}' && all[3] == '\u{c}'
        && all[4] == '\u{d}' && all[5] == ' ' && all[6] == '\u{85}' && all[7] == '\u{a0}' && all[8]
        == '\u{1680}');
    assert(all[9] == '\u{2000}' && all[10] == '\u{2001}' && all[11] == '\u{2002}' && all[12]
        == '\u{2003}' && all[13] == '\u{2004}' && all[14] == '\u{2005}' && all[15] == '\u{2006}'
        && all[16] == '\u{2007}' && all[17] == '\u{2008}' && all[18] == '\u{2009}' && all[19]
        == '\u{200a}');
    assert(all[20] == '\u{2028}' && all[21] == '\u{2029}' && all[22] == '\u{202f}' && all[23]
        == '\u{205f}' && all[24] == '\u{3000}');
}

/// Whether a text is white space alone.
pub open spec fn blank(s: Seq<char>) -> bool {
    forall|i: int| 0 <= i < s.len() ==> is_space(#[trigger] s[i])
}

/// White space alone holds no words.
pub proof fn blank_texts_have_no_words(s: Seq<char>)
    requires
        blank(s),
    ensures
        words(s) == Seq::<Seq<char>>::empty(),
    decreases s.len(),
{
    if s.len() > 0 {
        let front = s.drop_last();
        assert forall|i: int| 0 <= i < front.len() implies is_space(#[trigger] front[i]) by {
            assert(front[i] == s[i]);
        }
        assert(is_space(s[s.len() - 1]));
        blank_texts_have_no_words(front);
    }
}

proof fn lemma_words_apart(p: Seq<char>, rest: Seq<char>)
    requires
        rest.len() > 0 ==> is_space(rest[0]),
    ensures
        words(p + rest) == words(p) + words(rest),
        rest.len() > 0 && !is_space(rest.last()) ==> words(rest).len() > 0,
    decreases rest.len(),
{
    let all = p + rest;
    if rest.len() == 0 {
        assert(all == p);
    } else {
        let front = rest.drop_last();
        if front.len() > 0 {
            assert(front[0] == rest[0]);
        }
        lemma_words_apart(p, front);
        assert(all.drop_last() == p + front);
        assert(all.last() == rest.last());
        if rest.len() == 1 {
            assert(is_space(rest.last()));
            assert(words(rest) == words(front));
        } else {
            assert(all[all.len() - 2] == rest[rest.len() - 2]);
            assert(front.last() == rest[rest.len() - 2]);
            if !is_space(rest.last()) && !is_space(front.last()) {
                let w = words(front);
                let whole = words(p) + w;
                assert(whole.update(whole.len() - 1, whole.last().push(rest.last())) == words(p)
                    + w.update(w.len() - 1, w.last().push(rest.last())));
            }
        }
        assert(words(all) == words(p) + words(rest));
    }
}

/// The words of a text are its runs without white space, in order: behind
/// any white space, a run that ends where white space or the text's end does
/// comes first, and the words of what follows come behind it.
pub proof fn words_are_runs(lead: Seq<char>, word: Seq<char>, rest: Seq<char>)
    requires
        blank(lead),
        word.len() > 0,
        spaceless(word),
        rest.len() > 0 ==> is_space(rest[0]),
    ensures
        words(lead + word + rest) == seq![word] + words(rest),
{
    blank_texts_have_no_words(lead);
    if lead.len() > 0 {
        assert(is_space(lead[lead.len() - 1]));
    }
    lemma_word_behind(lead, word);
    lemma_words_apart(lead + word, rest);
    assert(words(lead + word) == seq![word]);
}

/// A number in decimal: one digit for a number below ten, and for any other
/// the number without its last digit, then that digit. A negative number is
/// its positive one behind a minus sign.
pub proof fn decimals_are_written_digit_by_digit(n: int, d: int)
    requires
        0 <= d < 10,
    ensures
        decimal(d) == seq![(('0' as int) + d) as char],
        n > 0 ==> decimal(10 * n + d) == decimal(n).push((('0' as int) + d) as char),
        n > 0 ==> decimal(-n) == seq!['-'] + decimal(n),
{
    if n > 0 {
        let m = (10 * n + d) as nat;
        assert(m / 10 == n && m % 10 == d) by (nonlinear_arith)
            requires
                m == 10 * n + d,
                0 <= d < 10,
        ;
    }
}

/// `n` zeros.
pub open spec fn zeros(n: nat) -> Seq<char> {
    repeated('0', n)
}

proof fn lemma_zeros_value(k: nat, n: nat)
    ensures
        crate::text::all_digits(zeros(k) + digits(n)),
        crate::text::digits_value(zeros(k) + digits(n)) == n,
    decreases n,
{
    let s = zeros(k) + digits(n);
    lemma_decimal_is_read_back(n as int, 0, n as int);
    assert(crate::text::all_digits(digits(n))) by {
        if digits(n)[0] == '+' || digits(n)[0] == '-' {
            crate::text::lemma_decimal_chars(n as int);
        }
    }
    assert forall|i: int| 0 <= i < s.len() implies is_digit(#[trigger] s[i]) by {
        if i < k {
            assert(s[i] == '0');
        } else {
            assert(s[i] == digits(n)[i - k]);
        }
    }
    if n < 10 {
        assert(s.drop_last() == zeros(k));
        lemma_zeros_are_nothing(k);
    } else {
        assert(s.drop_last() == zeros(k) + digits(n / 10));
        lemma_zeros_value(k, n / 10);
    }
}

proof fn lemma_zeros_are_nothing(k: nat)
    ensures
        crate::text::digits_value(zeros(k)) == 0,
    decreases k,
{
    if k > 0 {
        assert(zeros(k).drop_last() == zeros((k - 1) as nat));
        lemma_zeros_are_nothing((k - 1) as nat);
    }
}

proof fn lemma_numbers_are_read(k: nat, n: nat, low: int, high: int)
    ensures
        ({
            let body = zeros(k) + decimal(n as int);
            &&& number(body, low, high) == if low <= n <= high {
                Some(n as int)
            } else {
                None
            }
            &&& number(seq!['+'] + body, low, high) == if low <= n <= high {
                Some(n as int)
            } else {
                None
            }
            &&& number(seq!['-'] + body, low, high) == if low < 0 && low <= -n <= high {
                Some(-n)
            } else {
                None
            }
        }),
{
    let body = zeros(k) + decimal(n as int);
    lemma_zeros_value(k, n);
    assert(is_digit(body[0]));
    let plus = seq!['+'] + body;
    let minus = seq!['-'] + body;
    assert(plus.drop_first() == body);
    assert(minus.drop_first() == body);
    assert(!is_digit(minus[0]));
}

/// A whole number is read out of its digits, leading zeros or none, behind a
/// sign or none, where it fits 64 bits with a sign, and is no number where
/// it does not.
pub proof fn integers_are_read(k: nat, n: nat)
    ensures
        ({
            let body = zeros(k) + decimal(n as int);
            &&& n <= 0x7fff_ffff_ffff_ffff ==> integer(body) == Some(n as int)
            &&& n <= 0x7fff_ffff_ffff_ffff ==> integer(seq!['+'] + body) == Some(n as int)
            &&& n <= 0x8000_0000_0000_0000 ==> integer(seq!['-'] + body) == Some(-n)
            &&& n > 0x7fff_ffff_ffff_ffff ==> integer(body) is None
            &&& n > 0x7fff_ffff_ffff_ffff ==> integer(seq!['+'] + body) is None
            &&& n > 0x8000_0000_0000_0000 ==> integer(seq!['-'] + body) is None
        }),
{
    lemma_numbers_are_read(k, n, i64::MIN as int, i64::MAX as int);
}

/// A length is read out of its digits, leading zeros or none, behind a plus
/// sign or none, where it fits the machine; a minus sign has no place before
/// it, not even before zero.
pub proof fn lengths_are_read(k: nat, n: nat)
    ensures
        ({
            let body = zeros(k) + decimal(n as int);
            &&& n <= usize::MAX ==> length(body) == Some(n as int)
            &&& n <= usize::MAX ==> length(seq!['+'] + body) == Some(n as int)
            &&& n > usize::MAX ==> length(body) is None
            &&& n > usize::MAX ==> length(seq!['+'] + body) is None
            &&& length(seq!['-'] + body) is None
        }),
{
    lemma_numbers_are_read(k, n, 0, usize::MAX as int);
}

/// Anything else is no number: nothing at all, a sign alone, and any text
/// with a character that is neither a digit nor a sign at its front.
pub proof fn other_texts_are_no_numbers(s: Seq<char>, i: int)
    requires
        0 <= i < s.len() ==> !('0' as u32 <= s[i] as u32 <= '9' as u32) && (i > 0 || (s[i] != '+'
            && s[i] != '-')),
        !(0 <= i < s.len()) ==> s.len() == 0 || s == seq!['+'] || s == seq!['-'],
    ensures
        integer(s) is None,
        length(s) is None,
{
    if 0 <= i < s.len() {
        assert(!is_digit(s[i]));
        if i > 0 {
            assert(s.drop_first()[i - 1] == s[i]);
        }
    } else if s.len() > 0 {
        assert(s.drop_first().len() == 0);
        assert(!is_digit(s[0]));
    }
}

} // verus!
