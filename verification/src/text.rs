//! Text as the Admin API and the send targets use it: pieces between
//! separators, words between white space, and numbers written in decimal.

use vstd::prelude::*;
use vstd::string::*;
use vstd::utf8::*;

verus! {

/// Where `c` first occurs in `s`.
pub open spec fn first_at(s: Seq<char>, c: char, i: int) -> bool {
    &&& 0 <= i < s.len()
    &&& s[i] == c
    &&& forall|j: int| 0 <= j < i ==> s[j] != c
}

/// `s` cut at the first `c`: what stands before it and what stands behind
/// it, or nothing where `s` holds no `c`.
pub open spec fn cut_once(s: Seq<char>, c: char) -> Option<(Seq<char>, Seq<char>)> {
    if s.contains(c) {
        let i = choose|i: int| first_at(s, c, i);
        Some((s.take(i), s.skip(i + 1)))
    } else {
        None
    }
}

/// The pieces of `s` between one `c` and the next; one piece where `s` holds
/// no `c`, and an empty piece wherever two stand side by side or one stands
/// at an end.
pub open spec fn pieces(s: Seq<char>, c: char) -> Seq<Seq<char>>
    decreases s.len(),
{
    if s.len() == 0 {
        seq![s]
    } else {
        let rest = pieces(s.drop_last(), c);
        if s.last() == c {
            rest.push(Seq::<char>::empty())
        } else {
            rest.update(rest.len() - 1, rest.last().push(s.last()))
        }
    }
}

/// `s` without the `c`s it begins with.
pub open spec fn without_leading(s: Seq<char>, c: char) -> Seq<char>
    decreases s.len(),
{
    if s.len() > 0 && s[0] == c {
        without_leading(s.drop_first(), c)
    } else {
        s
    }
}

/// `s` without the `c`s it ends with.
pub open spec fn without_trailing(s: Seq<char>, c: char) -> Seq<char>
    decreases s.len(),
{
    if s.len() > 0 && s.last() == c {
        without_trailing(s.drop_last(), c)
    } else {
        s
    }
}

/// `s` without the `c`s at either end.
pub open spec fn trimmed(s: Seq<char>, c: char) -> Seq<char> {
    without_trailing(without_leading(s, c), c)
}

/// The characters Unicode counts as white space.
pub open spec fn is_space(c: char) -> bool {
    let u = c as u32;
    ||| 0x9 <= u <= 0xd
    ||| u == 0x20
    ||| u == 0x85
    ||| u == 0xa0
    ||| u == 0x1680
    ||| 0x2000 <= u <= 0x200a
    ||| u == 0x2028
    ||| u == 0x2029
    ||| u == 0x202f
    ||| u == 0x205f
    ||| u == 0x3000
}

/// The words of `s`: its longest runs of characters that are not white
/// space, in order.
pub open spec fn words(s: Seq<char>) -> Seq<Seq<char>>
    decreases s.len(),
{
    if s.len() == 0 {
        Seq::empty()
    } else {
        let rest = words(s.drop_last());
        if is_space(s.last()) {
            rest
        } else if s.len() == 1 || is_space(s[s.len() - 2]) {
            rest.push(seq![s.last()])
        } else {
            rest.update(rest.len() - 1, rest.last().push(s.last()))
        }
    }
}

/// Whether `s` holds no white space.
pub open spec fn spaceless(s: Seq<char>) -> bool {
    forall|i: int| 0 <= i < s.len() ==> !is_space(#[trigger] s[i])
}

/// What stands behind white space, or at the front, and holds none is a word.
pub proof fn lemma_word_behind(s: Seq<char>, w: Seq<char>)
    requires
        s.len() > 0 ==> is_space(s.last()),
        w.len() > 0,
        spaceless(w),
    ensures
        words(s + w) == words(s).push(w),
    decreases w.len(),
{
    let all = s + w;
    let v = w.drop_last();
    assert(all.drop_last() == s + v);
    assert(all.last() == w[w.len() - 1]);
    if w.len() == 1 {
        assert(s + v == s);
        assert(w == seq![w.last()]);
        assert(s.len() > 0 ==> all[all.len() - 2] == s.last());
    } else {
        assert forall|i: int| 0 <= i < v.len() implies !is_space(#[trigger] v[i]) by {
            assert(v[i] == w[i]);
        }
        lemma_word_behind(s, v);
        assert(all[all.len() - 2] == w[w.len() - 2]);
        let rest = words(s).push(v);
        assert(v.push(w.last()) == w);
        assert(rest.update(rest.len() - 1, rest.last().push(w.last())) == words(s).push(w));
    }
}

/// The words before white space stay the first ones, whatever follows it.
pub proof fn lemma_words_before(s: Seq<char>, rest: Seq<char>)
    requires
        s.len() > 0,
        is_space(s.last()),
    ensures
        words(s + rest).len() >= words(s).len(),
        words(s + rest).take(words(s).len() as int) == words(s),
        !is_space((s + rest).last()) ==> words(s + rest).len() > words(s).len(),
    decreases rest.len(),
{
    let all = s + rest;
    if rest.len() == 0 {
        assert(all == s);
    } else {
        assert(all.drop_last() == s + rest.drop_last());
        lemma_words_before(s, rest.drop_last());
        assert(all[all.len() - 2] == all.drop_last().last());
        let n = words(s).len() as int;
        let earlier = words(all.drop_last());
        assert forall|i: int| 0 <= i < n implies words(all)[i] == words(s)[i] by {
            assert(earlier.take(n)[i] == words(s)[i]);
        }
        assert(words(all).take(n) == words(s));
    }
}

/// The texts of a list of strings.
pub open spec fn texts(list: Seq<String>) -> Seq<Seq<char>> {
    list.map_values(|s: String| s@)
}

/// A first occurrence is where the text is cut.
pub proof fn lemma_cut_at_first(s: Seq<char>, c: char, i: int)
    requires
        first_at(s, c, i),
    ensures
        cut_once(s, c) == Some((s.take(i), s.skip(i + 1))),
{
    assert(s.contains(c));
    let k = choose|k: int| first_at(s, c, k);
    assert(first_at(s, c, k));
    assert(k == i);
}

/// The characters of `s`, one after another.
pub fn chars_of(s: &str) -> (r: Vec<char>)
    ensures
        r@ == s@,
{
    let mut r: Vec<char> = Vec::new();
    for c in it: s.chars()
        invariant
            it.seq() == s@,
            r@ == s@.take(it.index() as int),
    {
        r.push(c);
    }
    assert(s@.take(s@.len() as int) == s@);
    r
}

/// Whether two texts are the same.
pub fn same(a: &str, b: &str) -> (r: bool)
    ensures
        r == (a@ == b@),
{
    let left = a.as_bytes();
    let right = b.as_bytes();
    if left.len() != right.len() {
        return false;
    }
    let mut i: usize = 0;
    while i < left.len()
        invariant
            i <= left@.len(),
            left@.len() == right@.len(),
            left@ == encode_utf8(a@),
            right@ == encode_utf8(b@),
            left@.take(i as int) == right@.take(i as int),
        decreases left@.len() - i,
    {
        if left[i] != right[i] {
            return false;
        }
        assert(left@.take(i + 1) == left@.take(i as int).push(left@[i as int]));
        assert(right@.take(i + 1) == right@.take(i as int).push(right@[i as int]));
        i += 1;
    }
    proof {
        assert(left@.take(i as int) == left@);
        assert(right@.take(i as int) == right@);
        encode_utf8_decode_utf8(a@);
        encode_utf8_decode_utf8(b@);
    }
    true
}

/// Whether `c` occurs in `s`.
pub fn holds(s: &str, c: char) -> (r: bool)
    ensures
        r == s@.contains(c),
{
    let chars = chars_of(s);
    let mut i: usize = 0;
    while i < chars.len()
        invariant
            i <= chars@.len(),
            chars@ == s@,
            forall|j: int| 0 <= j < i ==> chars@[j] != c,
        decreases chars@.len() - i,
    {
        if chars[i] == c {
            return true;
        }
        i += 1;
    }
    false
}

/// Cut `s` at the first `c`.
pub fn split_once(s: &str, c: char) -> (r: Option<(&str, &str)>)
    ensures
        match r {
            Some((before, behind)) => cut_once(s@, c) == Some((before@, behind@)),
            None => cut_once(s@, c) is None,
        },
{
    let chars = chars_of(s);
    let mut i: usize = 0;
    while i < chars.len()
        invariant
            i <= chars@.len(),
            chars@ == s@,
            forall|j: int| 0 <= j < i ==> chars@[j] != c,
        decreases chars@.len() - i,
    {
        if chars[i] == c {
            proof {
                lemma_cut_at_first(s@, c, i as int);
                assert(s@.subrange(0, i as int) == s@.take(i as int));
                assert(s@.subrange(i + 1, s@.len() as int) == s@.skip(i + 1));
            }
            return Some((s.substring_char(0, i), s.substring_char(i + 1, chars.len())));
        }
        i += 1;
    }
    None
}

/// The pieces of `s` between one `c` and the next.
pub fn split(s: &str, c: char) -> (r: Vec<String>)
    ensures
        texts(r@) == pieces(s@, c),
{
    let chars = chars_of(s);
    let mut done: Vec<String> = Vec::new();
    let mut start: usize = 0;
    let mut i: usize = 0;
    assert(s@.take(0) == Seq::<char>::empty());
    assert(texts(done@).push(s@.subrange(0, 0)) == pieces(s@.take(0), c));
    while i < chars.len()
        invariant
            start <= i <= chars@.len(),
            chars@ == s@,
            texts(done@).push(s@.subrange(start as int, i as int)) == pieces(s@.take(i as int), c),
        decreases chars@.len() - i,
    {
        let ghost before = pieces(s@.take(i as int), c);
        let ghost upto = s@.take(i + 1);
        assert(upto.drop_last() == s@.take(i as int));
        assert(upto.last() == s@[i as int]);
        if chars[i] == c {
            done.push(s.substring_char(start, i).to_owned());
            start = i + 1;
            assert(texts(done@) == before);
            assert(s@.subrange(start as int, i + 1) == Seq::<char>::empty());
        } else {
            assert(s@.subrange(start as int, i + 1) == s@.subrange(start as int, i as int).push(s@[i as int]));
            assert(before.update(before.len() - 1, before.last().push(s@[i as int]))
                == texts(done@).push(s@.subrange(start as int, i + 1)));
        }
        i += 1;
    }
    assert(s@.take(i as int) == s@);
    let ghost was = texts(done@);
    done.push(s.substring_char(start, chars.len()).to_owned());
    assert(texts(done@) == was.push(s@.subrange(start as int, i as int)));
    done
}

/// `s` without the `c`s at either end.
pub fn trim(s: &str, c: char) -> (r: &str)
    ensures
        r@ == trimmed(s@, c),
{
    let chars = chars_of(s);
    let mut low: usize = 0;
    assert(s@.skip(0) == s@);
    while low < chars.len() && chars[low] == c
        invariant
            low <= chars@.len(),
            chars@ == s@,
            without_leading(s@.skip(low as int), c) == without_leading(s@, c),
        decreases chars@.len() - low,
    {
        assert(s@.skip(low as int).drop_first() == s@.skip(low + 1));
        low += 1;
    }
    let ghost core = s@.skip(low as int);
    assert(without_leading(s@, c) == core);
    let mut high: usize = chars.len();
    assert(core.take(high - low) == core);
    while high > low && chars[high - 1] == c
        invariant
            low <= high <= chars@.len(),
            chars@ == s@,
            core == s@.skip(low as int),
            without_trailing(core.take(high - low), c) == without_trailing(core, c),
        decreases high,
    {
        assert(core.take(high - low).drop_last() == core.take(high - low - 1));
        high -= 1;
    }
    assert(s@.subrange(low as int, high as int) == core.take(high - low));
    s.substring_char(low, high)
}

/// Whether `c` is white space.
pub fn spaced(c: char) -> (r: bool)
    ensures
        r == is_space(c),
{
    let u: u32 = c as u32;
    (0x9 <= u && u <= 0xd) || u == 0x20 || u == 0x85 || u == 0xa0 || u == 0x1680 || (0x2000 <= u
        && u <= 0x200a) || u == 0x2028 || u == 0x2029 || u == 0x202f || u == 0x205f || u == 0x3000
}

/// The words of `s`, in order.
pub fn split_words(s: &str) -> (r: Vec<String>)
    ensures
        texts(r@) == words(s@),
{
    let chars = chars_of(s);
    let mut done: Vec<String> = Vec::new();
    let mut inside = false;
    let mut start: usize = 0;
    let mut i: usize = 0;
    assert(s@.take(0) == Seq::<char>::empty());
    assert(texts(done@) == words(s@.take(0)));
    while i < chars.len()
        invariant
            start <= i <= chars@.len(),
            chars@ == s@,
            inside == (i > 0 && !is_space(s@[i - 1])),
            inside ==> start < i,
            words(s@.take(i as int)) == (if inside {
                texts(done@).push(s@.subrange(start as int, i as int))
            } else {
                texts(done@)
            }),
        decreases chars@.len() - i,
    {
        let ghost before = words(s@.take(i as int));
        let ghost upto = s@.take(i + 1);
        assert(upto.drop_last() == s@.take(i as int));
        assert(upto.last() == s@[i as int]);
        if spaced(chars[i]) {
            if inside {
                done.push(s.substring_char(start, i).to_owned());
                assert(texts(done@) == before);
            }
            inside = false;
        } else if inside {
            assert(upto[upto.len() - 2] == s@[i - 1]);
            assert(s@.subrange(start as int, i + 1) == s@.subrange(start as int, i as int).push(
                s@[i as int],
            ));
            assert(before.update(before.len() - 1, before.last().push(s@[i as int])) == texts(
                done@,
            ).push(s@.subrange(start as int, i + 1)));
        } else {
            start = i;
            inside = true;
            assert(s@.subrange(i as int, i + 1) == seq![s@[i as int]]);
        }
        i += 1;
    }
    assert(s@.take(i as int) == s@);
    if inside {
        let ghost was = texts(done@);
        done.push(s.substring_char(start, chars.len()).to_owned());
        assert(texts(done@) == was.push(s@.subrange(start as int, i as int)));
    }
    done
}

/// Whether `c` is one of the ten decimal digits.
pub open spec fn is_digit(c: char) -> bool {
    0x30 <= c as u32 <= 0x39
}

/// What a digit counts for.
pub open spec fn digit_value(c: char) -> int {
    c as u32 - 0x30
}

/// The digit that counts for `d`.
pub open spec fn digit_char(d: int) -> char {
    (0x30 + d) as char
}

/// Whether `s` is made of digits alone, one at least.
pub open spec fn all_digits(s: Seq<char>) -> bool {
    s.len() > 0 && forall|i: int| 0 <= i < s.len() ==> is_digit(#[trigger] s[i])
}

/// The number that the digits of `s` write.
pub open spec fn digits_value(s: Seq<char>) -> int
    decreases s.len(),
{
    if s.len() == 0 {
        0
    } else {
        digits_value(s.drop_last()) * 10 + digit_value(s.last())
    }
}

/// The digits that write `n`, without leading zeros.
pub open spec fn digits(n: nat) -> Seq<char>
    decreases n,
{
    if n < 10 {
        seq![digit_char(n as int)]
    } else {
        digits(n / 10).push(digit_char((n % 10) as int))
    }
}

/// `n` written in decimal, a minus sign before it where it is negative.
pub open spec fn decimal(n: int) -> Seq<char> {
    if n < 0 {
        seq!['-'] + digits((-n) as nat)
    } else {
        digits(n as nat)
    }
}

/// The number between `low` and `high` that `s` writes: digits, behind a
/// plus sign or, where negative numbers are wanted, a minus sign, or behind
/// no sign.
pub open spec fn number(s: Seq<char>, low: int, high: int) -> Option<int> {
    let signed = s.len() > 0 && (s[0] == '+' || (low < 0 && s[0] == '-'));
    let body = if signed {
        s.drop_first()
    } else {
        s
    };
    let n = if signed && s[0] == '-' {
        -digits_value(body)
    } else {
        digits_value(body)
    };
    if all_digits(body) && low <= n <= high {
        Some(n)
    } else {
        None
    }
}

/// The `i64` that `s` writes.
pub open spec fn integer(s: Seq<char>) -> Option<int> {
    number(s, i64::MIN as int, i64::MAX as int)
}

/// The length that `s` writes.
pub open spec fn length(s: Seq<char>) -> Option<int> {
    number(s, 0, usize::MAX as int)
}

proof fn lemma_digits_value(n: nat)
    ensures
        all_digits(digits(n)),
        digits_value(digits(n)) == n,
    decreases n,
{
    if n < 10 {
        let s = digits(n);
        assert(s.drop_last() == Seq::<char>::empty());
        assert(digits_value(s.drop_last()) == 0);
    } else {
        lemma_digits_value(n / 10);
        let s = digits(n);
        assert(s.drop_last() == digits(n / 10));
    }
}

/// What is written in decimal is read back: a number printed by [`decimal`]
/// is the number that [`number`] finds in the text.
pub proof fn lemma_decimal_is_read_back(n: int, low: int, high: int)
    requires
        low <= n <= high,
    ensures
        number(decimal(n), low, high) == Some(n),
{
    let s = decimal(n);
    if n < 0 {
        lemma_digits_value((-n) as nat);
        assert(s.drop_first() == digits((-n) as nat));
    } else {
        lemma_digits_value(n as nat);
        assert(is_digit(s[0]));
    }
}

/// A number in decimal is made of digits and perhaps a minus sign.
pub proof fn lemma_decimal_chars(n: int)
    ensures
        decimal(n).len() > 0,
        forall|i: int|
            0 <= i < decimal(n).len() ==> is_digit(#[trigger] decimal(n)[i]) || decimal(n)[i] == '-',
{
    lemma_digits_value((if n < 0 {
        -n
    } else {
        n
    }) as nat);
}

/// Where `c` does not occur there is one piece.
pub proof fn lemma_one_piece(s: Seq<char>, c: char)
    requires
        !s.contains(c),
    ensures
        pieces(s, c) == seq![s],
    decreases s.len(),
{
    if s.len() > 0 {
        assert(s.last() != c) by {
            assert(s[s.len() - 1] == s.last());
        }
        assert forall|i: int| 0 <= i < s.drop_last().len() implies s.drop_last()[i] != c by {
            assert(s[i] != c);
        }
        lemma_one_piece(s.drop_last(), c);
        assert(s.drop_last().push(s.last()) == s);
        assert(pieces(s, c) == seq![s]);
    }
}

/// What stands behind the last `c` is the last piece.
pub proof fn lemma_last_piece(s: Seq<char>, c: char, p: Seq<char>)
    requires
        !p.contains(c),
    ensures
        pieces(s + seq![c] + p, c) == pieces(s, c).push(p),
    decreases p.len(),
{
    let all = s + seq![c] + p;
    if p.len() == 0 {
        assert(all.drop_last() == s);
        assert(all.last() == c);
        assert(p == Seq::<char>::empty());
    } else {
        let q = p.drop_last();
        assert(p.last() != c) by {
            assert(p[p.len() - 1] == p.last());
        }
        assert forall|i: int| 0 <= i < q.len() implies q[i] != c by {
            assert(p[i] != c);
        }
        lemma_last_piece(s, c, q);
        assert(all.drop_last() == s + seq![c] + q);
        assert(all.last() == p.last());
        assert(q.push(p.last()) == p);
        let rest = pieces(s, c).push(q);
        assert(rest.update(rest.len() - 1, rest.last().push(p.last())) == pieces(s, c).push(p));
    }
}

/// A `c` at the front goes, and nothing behind it.
pub proof fn lemma_trimmed(s: Seq<char>, c: char)
    requires
        s.len() > 0,
        s[0] != c,
        s.last() != c,
    ensures
        trimmed(seq![c] + s, c) == s,
{
    let all = seq![c] + s;
    assert(all.drop_first() == s);
    assert(without_leading(s, c) == s);
    assert(without_leading(all, c) == s);
}

/// The digit that counts for `d`, as text.
fn digit_text(d: u128) -> (r: &'static str)
    requires
        d < 10,
    ensures
        r@ == seq![digit_char(d as int)],
{
    proof {
        reveal_strlit("0");
        reveal_strlit("1");
        reveal_strlit("2");
        reveal_strlit("3");
        reveal_strlit("4");
        reveal_strlit("5");
        reveal_strlit("6");
        reveal_strlit("7");
        reveal_strlit("8");
        reveal_strlit("9");
    }
    let r = match d {
        0 => "0",
        1 => "1",
        2 => "2",
        3 => "3",
        4 => "4",
        5 => "5",
        6 => "6",
        7 => "7",
        8 => "8",
        _ => "9",
    };
    assert(r@ == seq![digit_char(d as int)]);
    r
}

/// Write the digits of `n` behind what `out` holds.
fn append_digits(out: &mut String, n: u128)
    ensures
        final(out)@ == old(out)@ + digits(n as nat),
    decreases n,
{
    if n < 10 {
        out.append(digit_text(n));
    } else {
        append_digits(out, n / 10);
        out.append(digit_text(n % 10));
        assert(out@ == old(out)@ + digits(n as nat));
    }
}

/// Write `n` in decimal behind what `out` holds.
pub fn append_decimal(out: &mut String, n: i128)
    requires
        n > i128::MIN,
    ensures
        final(out)@ == old(out)@ + decimal(n as int),
{
    if n < 0 {
        proof {
            reveal_strlit("-");
        }
        out.append("-");
        append_digits(out, (-n) as u128);
        assert("-"@ == seq!['-']);
        assert(out@ == old(out)@ + decimal(n as int));
    } else {
        append_digits(out, n as u128);
    }
}

proof fn lemma_value_grows(s: Seq<char>, i: int)
    requires
        forall|j: int| 0 <= j < s.len() ==> is_digit(#[trigger] s[j]),
        0 <= i <= s.len(),
    ensures
        0 <= digits_value(s.take(i)) <= digits_value(s),
    decreases s.len(),
{
    if i == s.len() {
        assert(s.take(i) == s);
        if i > 0 {
            lemma_value_grows(s.drop_last(), i - 1);
            assert(s.drop_last().take(i - 1) == s.drop_last());
        }
    } else {
        lemma_value_grows(s.drop_last(), i);
        assert(s.drop_last().take(i) == s.take(i));
    }
}

/// The number up to `most` that the characters from `from` on write.
fn read_digits(chars: &Vec<char>, from: usize, most: u128) -> (r: Option<u128>)
    requires
        from <= chars@.len(),
        most < 0x1_0000_0000_0000_0000_0000,
    ensures
        match r {
            Some(n) => all_digits(chars@.skip(from as int)) && n == digits_value(
                chars@.skip(from as int),
            ) && n <= most,
            None => all_digits(chars@.skip(from as int)) ==> digits_value(
                chars@.skip(from as int),
            ) > most,
        },
{
    let ghost body = chars@.skip(from as int);
    if from == chars.len() {
        return None;
    }
    let mut n: u128 = 0;
    let mut i: usize = from;
    assert(body.take(0) == Seq::<char>::empty());
    while i < chars.len()
        invariant
            from <= i <= chars@.len(),
            body == chars@.skip(from as int),
            most < 0x1_0000_0000_0000_0000_0000,
            n <= most,
            n == digits_value(body.take(i - from)),
            forall|j: int| 0 <= j < i - from ==> is_digit(#[trigger] body[j]),
        decreases chars@.len() - i,
    {
        let u: u32 = chars[i] as u32;
        assert(chars@[i as int] == body[i - from]);
        if u < 0x30 || u > 0x39 {
            return None;
        }
        assert(body.take(i - from + 1).drop_last() == body.take(i - from));
        n = n * 10 + (u - 0x30) as u128;
        assert(n == digits_value(body.take(i - from + 1)));
        if n > most {
            proof {
                if all_digits(body) {
                    lemma_value_grows(body, i - from + 1);
                }
            }
            return None;
        }
        i += 1;
    }
    assert(body.take(i - from) == body);
    Some(n)
}

/// The `i64` that `s` writes.
pub fn read_integer(s: &str) -> (r: Option<i64>)
    ensures
        match r {
            Some(n) => integer(s@) == Some(n as int),
            None => integer(s@) is None,
        },
{
    let chars = chars_of(s);
    assert(chars@.skip(0) == chars@);
    if chars.len() == 0 {
        return None;
    }
    assert(s@.skip(1) == s@.drop_first());
    if chars[0] == '-' {
        match read_digits(&chars, 1, 0x8000_0000_0000_0000) {
            Some(n) => Some((-(n as i128)) as i64),
            None => None,
        }
    } else {
        let from: usize = if chars[0] == '+' {
            1
        } else {
            0
        };
        match read_digits(&chars, from, 0x7fff_ffff_ffff_ffff) {
            Some(n) => Some(n as i64),
            None => None,
        }
    }
}

/// The length that `s` writes.
pub fn read_length(s: &str) -> (r: Option<usize>)
    ensures
        match r {
            Some(n) => length(s@) == Some(n as int),
            None => length(s@) is None,
        },
{
    let chars = chars_of(s);
    assert(chars@.skip(0) == chars@);
    assert(chars@.len() > 0 ==> s@.skip(1) == s@.drop_first());
    let from: usize = if chars.len() > 0 && chars[0] == '+' {
        1
    } else {
        0
    };
    match read_digits(&chars, from, usize::MAX as u128) {
        Some(n) => Some(n as usize),
        None => None,
    }
}

} // verus!
