//! Text helpers shared by the rest of the crate: decimal rendering, blanks,
//! trimming and splitting into words.

use numtoa::NumToA;
use vstd::prelude::*;
use vstd::string::*;

verus! {

/// `String::push` appends one character.
pub assume_specification[ String::push ](s: &mut String, c: char)
    ensures
        final(s)@ == old(s)@.push(c),
;

/// `String::pop` removes the last character and returns it, or returns `None`
/// and leaves an empty string as it is.
pub assume_specification[ String::pop ](s: &mut String) -> (r: Option<char>)
    ensures
        old(s)@.len() == 0 ==> r is None && final(s)@ == old(s)@,
        old(s)@.len() > 0 ==> r == Some(old(s)@.last()) && final(s)@ == old(s)@.drop_last(),
;

/// The character that stands for a single decimal digit.
pub open spec fn digit_char(d: nat) -> char {
    if d == 0 {
        '0'
    } else if d == 1 {
        '1'
    } else if d == 2 {
        '2'
    } else if d == 3 {
        '3'
    } else if d == 4 {
        '4'
    } else if d == 5 {
        '5'
    } else if d == 6 {
        '6'
    } else if d == 7 {
        '7'
    } else if d == 8 {
        '8'
    } else {
        '9'
    }
}

/// The decimal representation of `n`, most significant digit first, without
/// leading zeros (`0` is written as one digit).
pub open spec fn decimal_digits(n: nat) -> Seq<char>
    decreases n,
{
    if n < 10 {
        seq![digit_char(n)]
    } else {
        decimal_digits(n / 10).push(digit_char(n % 10))
    }
}

/// A number of two or more digits is ten or more.
pub proof fn lemma_decimal_digits_len(n: nat)
    ensures
        decimal_digits(n).len() >= 1,
        n < 10 <==> decimal_digits(n).len() == 1,
    decreases n,
{
    if n >= 10 {
        lemma_decimal_digits_len(n / 10);
    }
}

/// Two numbers that are written alike are the same number.
pub proof fn lemma_decimal_digits_apart(a: nat, b: nat)
    requires
        decimal_digits(a) == decimal_digits(b),
    ensures
        a == b,
    decreases a,
{
    lemma_decimal_digits_len(a);
    lemma_decimal_digits_len(b);
    if a < 10 {
        assert(decimal_digits(a)[0] == digit_char(a));
        assert(decimal_digits(b)[0] == digit_char(b));
    } else {
        let head_a = decimal_digits(a / 10);
        let head_b = decimal_digits(b / 10);
        assert(decimal_digits(a).last() == digit_char(a % 10));
        assert(decimal_digits(b).last() == digit_char(b % 10));
        assert(decimal_digits(a).drop_last() =~= head_a);
        assert(decimal_digits(b).drop_last() =~= head_b);
        lemma_decimal_digits_apart(a / 10, b / 10);
    }
}

/// Wraps `<u8 as numtoa::NumToA<u8>>::numtoa_str` in base ten on a buffer of
/// twenty bytes: the result is the decimal representation of `n`.
#[verifier::external_body]
pub(crate) fn u8_decimal(n: u8) -> (s: String)
    ensures
        s@ == decimal_digits(n as nat),
{
    let mut buf = [0u8; 20];
    n.numtoa_str(10, &mut buf).to_string()
}

/// Wraps `<u16 as numtoa::NumToA<u16>>::numtoa_str` in base ten on a buffer
/// of twenty bytes: the result is the decimal representation of `n`.
#[verifier::external_body]
pub(crate) fn u16_decimal(n: u16) -> (s: String)
    ensures
        s@ == decimal_digits(n as nat),
{
    let mut buf = [0u8; 20];
    n.numtoa_str(10, &mut buf).to_string()
}

fn digit_of(d: u64) -> (c: char)
    requires
        d < 10,
    ensures
        c == digit_char(d as nat),
{
    if d == 0 {
        '0'
    } else if d == 1 {
        '1'
    } else if d == 2 {
        '2'
    } else if d == 3 {
        '3'
    } else if d == 4 {
        '4'
    } else if d == 5 {
        '5'
    } else if d == 6 {
        '6'
    } else if d == 7 {
        '7'
    } else if d == 8 {
        '8'
    } else {
        '9'
    }
}

/// Appends the decimal representation of `n` to `out`.
pub fn push_decimal(out: &mut String, n: u64)
    ensures
        final(out)@ == old(out)@ + decimal_digits(n as nat),
    decreases n,
{
    if n >= 10 {
        push_decimal(out, n / 10);
    }
    out.push(digit_of(n % 10));
    proof {
        if n >= 10 {
            assert(old(out)@ + decimal_digits(n as nat) =~= (old(out)@ + decimal_digits(
                (n / 10) as nat,
            )).push(digit_char((n % 10) as nat)));
        } else {
            assert(old(out)@ + decimal_digits(n as nat) =~= old(out)@.push(digit_char(n as nat)));
        }
    }
}

/// The characters of `s`, one by one.
pub fn chars_of(s: &str) -> (v: Vec<char>)
    ensures
        v@ == s@,
{
    let mut v: Vec<char> = Vec::new();
    for c in it: s.chars()
        invariant
            v@ == it.seq().take(it.index() as int),
            it.seq() == s@,
    {
        v.push(c);
    }
    v
}

/// The text made of `v[from..to]`.
pub fn string_of(v: &Vec<char>, from: usize, to: usize) -> (s: String)
    requires
        from <= to <= v.len(),
    ensures
        s@ == v@.subrange(from as int, to as int),
{
    let mut s = String::new();
    let mut i: usize = from;
    while i < to
        invariant
            from <= i <= to <= v.len(),
            s@ == v@.subrange(from as int, i as int),
        decreases to - i,
    {
        s.push(v[i]);
        i = i + 1;
    }
    s
}

/// Whether `c` is white space: the code points that Unicode marks
/// `White_Space`.
pub open spec fn is_blank(c: char) -> bool {
    let u = c as u32;
    ||| 0x09 <= u <= 0x0D
    ||| u == 0x20
    ||| u == 0x85
    ||| u == 0xA0
    ||| u == 0x1680
    ||| 0x2000 <= u <= 0x200A
    ||| u == 0x2028
    ||| u == 0x2029
    ||| u == 0x202F
    ||| u == 0x205F
    ||| u == 0x3000
}

/// Whether `c` is white space.
pub fn char_is_blank(c: char) -> (r: bool)
    ensures
        r == is_blank(c),
{
    let u: u32 = c as u32;
    (0x09 <= u && u <= 0x0D) || u == 0x20 || u == 0x85 || u == 0xA0 || u == 0x1680 || (0x2000 <= u
        && u <= 0x200A) || u == 0x2028 || u == 0x2029 || u == 0x202F || u == 0x205F || u == 0x3000
}

/// How many blanks `s` starts with.
pub open spec fn leading_blanks(s: Seq<char>) -> nat
    decreases s.len(),
{
    if s.len() > 0 && is_blank(s[0]) {
        1 + leading_blanks(s.drop_first())
    } else {
        0
    }
}

/// How many blanks `s` ends with.
pub open spec fn trailing_blanks(s: Seq<char>) -> nat
    decreases s.len(),
{
    if s.len() > 0 && is_blank(s.last()) {
        1 + trailing_blanks(s.drop_last())
    } else {
        0
    }
}

/// How many characters stand before the first blank of `s` (all of them if
/// `s` has no blank).
pub open spec fn word_len(s: Seq<char>) -> nat
    decreases s.len(),
{
    if s.len() > 0 && !is_blank(s[0]) {
        1 + word_len(s.drop_first())
    } else {
        0
    }
}

/// `s` without the blanks at its start.
pub open spec fn trim_start(s: Seq<char>) -> Seq<char> {
    s.skip(leading_blanks(s) as int)
}

/// `s` without the blanks at its end.
pub open spec fn trim_end(s: Seq<char>) -> Seq<char> {
    s.take(s.len() - trailing_blanks(s))
}

/// `s` without the blanks at both ends.
pub open spec fn trimmed(s: Seq<char>) -> Seq<char> {
    trim_end(trim_start(s))
}

/// The first word of `s`: what stands before its first blank.
pub open spec fn first_word(s: Seq<char>) -> Seq<char> {
    s.take(word_len(s) as int)
}

/// What follows the first word of `s` and the blanks after it.
pub open spec fn after_first_word(s: Seq<char>) -> Seq<char> {
    trim_start(s.skip(word_len(s) as int))
}

/// `leading_blanks` counts a run of blanks at the start that cannot be longer.
pub proof fn lemma_leading_blanks(s: Seq<char>)
    ensures
        leading_blanks(s) <= s.len(),
        forall|i: int| 0 <= i < leading_blanks(s) ==> is_blank(#[trigger] s[i]),
        leading_blanks(s) < s.len() ==> !is_blank(s[leading_blanks(s) as int]),
    decreases s.len(),
{
    if s.len() > 0 && is_blank(s[0]) {
        let t = s.drop_first();
        lemma_leading_blanks(t);
        assert forall|i: int| 0 <= i < leading_blanks(s) implies is_blank(#[trigger] s[i]) by {
            if i > 0 {
                assert(s[i] == t[i - 1]);
            }
        }
        if leading_blanks(s) < s.len() {
            assert(s[leading_blanks(s) as int] == t[leading_blanks(t) as int]);
        }
    }
}

/// `trailing_blanks` counts a run of blanks at the end that cannot be longer.
pub proof fn lemma_trailing_blanks(s: Seq<char>)
    ensures
        trailing_blanks(s) <= s.len(),
        forall|i: int| s.len() - trailing_blanks(s) <= i < s.len() ==> is_blank(#[trigger] s[i]),
        trailing_blanks(s) < s.len() ==> !is_blank(s[s.len() - trailing_blanks(s) - 1]),
    decreases s.len(),
{
    if s.len() > 0 && is_blank(s.last()) {
        let t = s.drop_last();
        lemma_trailing_blanks(t);
        assert forall|i: int| s.len() - trailing_blanks(s) <= i < s.len() implies is_blank(
            #[trigger] s[i],
        ) by {
            if i < s.len() - 1 {
                assert(s[i] == t[i]);
            }
        }
        if trailing_blanks(s) < s.len() {
            assert(s[s.len() - trailing_blanks(s) - 1] == t[t.len() - trailing_blanks(t) - 1]);
        }
    }
}

/// `word_len` counts a run of non-blanks at the start that cannot be longer.
pub proof fn lemma_word_len(s: Seq<char>)
    ensures
        word_len(s) <= s.len(),
        forall|i: int| 0 <= i < word_len(s) ==> !is_blank(#[trigger] s[i]),
        word_len(s) < s.len() ==> is_blank(s[word_len(s) as int]),
    decreases s.len(),
{
    if s.len() > 0 && !is_blank(s[0]) {
        let t = s.drop_first();
        lemma_word_len(t);
        assert forall|i: int| 0 <= i < word_len(s) implies !is_blank(#[trigger] s[i]) by {
            if i > 0 {
                assert(s[i] == t[i - 1]);
            }
        }
        if word_len(s) < s.len() {
            assert(s[word_len(s) as int] == t[word_len(t) as int]);
        }
    }
}

/// A run of blanks that stops at a non-blank (or at the end) is the whole
/// leading run.
pub proof fn lemma_leading_blanks_is(s: Seq<char>, n: nat)
    requires
        n <= s.len(),
        forall|i: int| 0 <= i < n ==> is_blank(#[trigger] s[i]),
        n < s.len() ==> !is_blank(s[n as int]),
    ensures
        leading_blanks(s) == n,
    decreases s.len(),
{
    if n > 0 {
        let t = s.drop_first();
        assert(is_blank(s[0]));
        assert forall|i: int| 0 <= i < n - 1 implies is_blank(#[trigger] t[i]) by {
            assert(t[i] == s[i + 1]);
        }
        lemma_leading_blanks_is(t, (n - 1) as nat);
    }
}

/// A run of blanks at the end that starts behind a non-blank (or at the
/// start) is the whole trailing run.
pub proof fn lemma_trailing_blanks_is(s: Seq<char>, n: nat)
    requires
        n <= s.len(),
        forall|i: int| s.len() - n <= i < s.len() ==> is_blank(#[trigger] s[i]),
        n < s.len() ==> !is_blank(s[s.len() - n - 1]),
    ensures
        trailing_blanks(s) == n,
    decreases s.len(),
{
    if n > 0 {
        let t = s.drop_last();
        assert(is_blank(s[s.len() - 1]));
        assert forall|i: int| t.len() - (n - 1) <= i < t.len() implies is_blank(#[trigger] t[i]) by {
            assert(t[i] == s[i]);
        }
        lemma_trailing_blanks_is(t, (n - 1) as nat);
    }
}

/// A run of non-blanks that stops at a blank (or at the end) is the whole
/// first word.
pub proof fn lemma_word_len_is(s: Seq<char>, n: nat)
    requires
        n <= s.len(),
        forall|i: int| 0 <= i < n ==> !is_blank(#[trigger] s[i]),
        n < s.len() ==> is_blank(s[n as int]),
    ensures
        word_len(s) == n,
    decreases s.len(),
{
    if n > 0 {
        let t = s.drop_first();
        assert(!is_blank(s[0]));
        assert forall|i: int| 0 <= i < n - 1 implies !is_blank(#[trigger] t[i]) by {
            assert(t[i] == s[i + 1]);
        }
        lemma_word_len_is(t, (n - 1) as nat);
    }
}

/// The index of the first non-blank of `v[from..to]`, or `to`.
pub fn skip_blanks(v: &Vec<char>, from: usize, to: usize) -> (r: usize)
    requires
        from <= to <= v.len(),
    ensures
        r == from + leading_blanks(v@.subrange(from as int, to as int)),
        from <= r <= to,
{
    let mut i: usize = from;
    while i < to && char_is_blank(v[i])
        invariant
            from <= i <= to <= v.len(),
            forall|j: int| from <= j < i ==> is_blank(#[trigger] v@[j]),
        decreases to - i,
    {
        i = i + 1;
    }
    proof {
        let s = v@.subrange(from as int, to as int);
        assert forall|j: int| 0 <= j < i - from implies is_blank(#[trigger] s[j]) by {
            assert(s[j] == v@[from + j]);
        }
        lemma_leading_blanks_is(s, (i - from) as nat);
    }
    i
}

/// The index after the last non-blank of `v[from..to]`, or `from`.
pub fn skip_blanks_back(v: &Vec<char>, from: usize, to: usize) -> (r: usize)
    requires
        from <= to <= v.len(),
    ensures
        r == to - trailing_blanks(v@.subrange(from as int, to as int)),
        from <= r <= to,
{
    let mut i: usize = to;
    while i > from && char_is_blank(v[i - 1])
        invariant
            from <= i <= to <= v.len(),
            forall|j: int| i <= j < to ==> is_blank(#[trigger] v@[j]),
        decreases i - from,
    {
        i = i - 1;
    }
    proof {
        let s = v@.subrange(from as int, to as int);
        assert forall|j: int| s.len() - (to - i) <= j < s.len() implies is_blank(
            #[trigger] s[j],
        ) by {
            assert(s[j] == v@[from + j]);
        }
        lemma_trailing_blanks_is(s, (to - i) as nat);
    }
    i
}

/// The index of the first blank of `v[from..to]`, or `to`.
pub fn skip_word(v: &Vec<char>, from: usize, to: usize) -> (r: usize)
    requires
        from <= to <= v.len(),
    ensures
        r == from + word_len(v@.subrange(from as int, to as int)),
        from <= r <= to,
{
    let mut i: usize = from;
    while i < to && !char_is_blank(v[i])
        invariant
            from <= i <= to <= v.len(),
            forall|j: int| from <= j < i ==> !is_blank(#[trigger] v@[j]),
        decreases to - i,
    {
        i = i + 1;
    }
    proof {
        let s = v@.subrange(from as int, to as int);
        assert forall|j: int| 0 <= j < i - from implies !is_blank(#[trigger] s[j]) by {
            assert(s[j] == v@[from + j]);
        }
        lemma_word_len_is(s, (i - from) as nat);
    }
    i
}

/// Whether two texts are the same, character by character.
pub fn str_eq(a: &str, b: &str) -> (r: bool)
    ensures
        r == (a@ == b@),
{
    let x = a.to_owned();
    let y = b.to_owned();
    x == y
}

} // verus!
