//! Text for messages and reports, and the character tests that the parsers use.

use vstd::arithmetic::div_mod::lemma_mod_breakdown;
use vstd::arithmetic::power::{lemma_pow_positive, pow};
use vstd::prelude::*;

verus! {

/// The character that writes the digit `d`, lower case above nine.
pub open spec fn digit_char(d: nat) -> char {
    if d < 10 {
        ('0' as nat + d) as char
    } else {
        ('a' as nat + (d - 10)) as char
    }
}

/// `n` in base `base`, most significant digit first and without leading zeros.
pub open spec fn numeral(n: nat, base: nat) -> Seq<char>
    decreases n,
{
    if base < 2 || n < base {
        seq![digit_char(n)]
    } else {
        proof {
            assert(n / base < n) by (nonlinear_arith)
                requires
                    n >= base >= 2,
            ;
        }
        numeral(n / base, base).push(digit_char(n % base))
    }
}

/// `n` in decimal.
pub open spec fn decimal(n: nat) -> Seq<char> {
    numeral(n, 10)
}

/// `n` in lower-case hexadecimal, without a prefix.
pub open spec fn hex(n: nat) -> Seq<char> {
    numeral(n, 16)
}

fn digit_text(d: u64) -> (s: &'static str)
    requires
        d < 16,
    ensures
        s@ == seq![digit_char(d as nat)],
{
    proof {
        reveal_strlit("0");
        reveal_strlit("1");
        reveal_strlit("2");
        reveal_strlit("3");
        reveal_strlit("4");
        reveal_strlit("5");
        reveal_strlit("6");
        reveal_strlit("7");
        reveal_strlit("8");
        reveal_strlit("9");
        reveal_strlit("a");
        reveal_strlit("b");
        reveal_strlit("c");
        reveal_strlit("d");
        reveal_strlit("e");
        reveal_strlit("f");
    }
    let s: &'static str = match d {
        0 => "0",
        1 => "1",
        2 => "2",
        3 => "3",
        4 => "4",
        5 => "5",
        6 => "6",
        7 => "7",
        8 => "8",
        9 => "9",
        10 => "a",
        11 => "b",
        12 => "c",
        13 => "d",
        14 => "e",
        _ => "f",
    };
    assert(s@ =~= seq![digit_char(d as nat)]);
    s
}

/// Appends `n` in base `base` to `out`.
fn append_numeral(out: &mut String, n: u64, base: u64)
    requires
        2 <= base <= 16,
    ensures
        final(out)@ == old(out)@ + numeral(n as nat, base as nat),
    decreases n,
{
    if n < base {
        out.append(digit_text(n));
    } else {
        assert(n / base < n) by (nonlinear_arith)
            requires
                n >= base,
                base >= 2,
        ;
        append_numeral(out, n / base, base);
        let ghost mid = out@;
        out.append(digit_text(n % base));
        proof {
            let head = numeral((n / base) as nat, base as nat);
            let d = digit_char((n % base) as nat);
            assert((old(out)@ + head) + seq![d] =~= old(out)@ + head.push(d));
        }
    }
}

/// Appends `n` in decimal to `out`.
pub fn append_decimal(out: &mut String, n: u64)
    ensures
        final(out)@ == old(out)@ + decimal(n as nat),
{
    append_numeral(out, n, 10);
}

/// Appends `n` in lower-case hexadecimal to `out`, without a prefix.
pub fn append_hex(out: &mut String, n: u64)
    ensures
        final(out)@ == old(out)@ + hex(n as nat),
{
    append_numeral(out, n, 16);
}

/// The last `width` hexadecimal digits of `n`, in lower case.
pub open spec fn padded_hex(n: nat, width: nat) -> Seq<char>
    decreases width,
{
    if width == 0 {
        Seq::empty()
    } else {
        padded_hex(n / 16, (width - 1) as nat).push(digit_char(n % 16))
    }
}

/// Appends the last `width` hexadecimal digits of `n` to `out`.
pub fn append_padded_hex(out: &mut String, n: u64, width: u64)
    ensures
        final(out)@ == old(out)@ + padded_hex(n as nat, width as nat),
    decreases width,
{
    if width > 0 {
        append_padded_hex(out, n / 16, width - 1);
        out.append(digit_text(n % 16));
        proof {
            let head = padded_hex((n / 16) as nat, (width - 1) as nat);
            let d = digit_char((n % 16) as nat);
            assert((old(out)@ + head) + seq![d] =~= old(out)@ + head.push(d));
        }
    } else {
        assert(old(out)@ + Seq::<char>::empty() =~= old(out)@);
    }
}

/// `n` in decimal, as a string of its own.
pub fn decimal_string(n: u64) -> (s: String)
    ensures
        s@ == decimal(n as nat),
{
    let mut s = String::new();
    append_decimal(&mut s, n);
    assert(s@ =~= decimal(n as nat));
    s
}

/// The characters of `s`, one by one.
pub fn chars_of(s: &str) -> (chars: Vec<char>)
    ensures
        chars@ == s@,
{
    let mut chars: Vec<char> = Vec::new();
    for c in it: s.chars()
        invariant
            it.seq() == s@,
            chars@ == s@.take(it.index()),
    {
        chars.push(c);
        assert(s@.take(it.index() + 1) =~= s@.take(it.index()).push(c));
    }
    assert(s@.take(s@.len() as int) =~= s@);
    chars
}

/// The Unicode characters that have the property `White_Space`.
pub open spec fn white_space(c: char) -> bool {
    let u = c as u32;
    ||| 0x09 <= u <= 0x0d
    ||| u == 0x20
    ||| u == 0x85
    ||| u == 0xa0
    ||| u == 0x1680
    ||| 0x2000 <= u <= 0x200a
    ||| u == 0x2028
    ||| u == 0x2029
    ||| u == 0x202f
    ||| u == 0x205f
    ||| u == 0x3000
}

/// Whether `c` is white space.
pub fn is_white_space(c: char) -> (r: bool)
    ensures
        r == white_space(c),
{
    let u: u32 = c as u32;
    (0x09 <= u && u <= 0x0d) || u == 0x20 || u == 0x85 || u == 0xa0 || u == 0x1680 || (0x2000 <= u
        && u <= 0x200a) || u == 0x2028 || u == 0x2029 || u == 0x202f || u == 0x205f || u == 0x3000
}

/// Nothing but white space, or nothing at all.
pub open spec fn blank(s: Seq<char>) -> bool {
    forall|i: int| 0 <= i < s.len() ==> white_space(#[trigger] s[i])
}

/// Whether `s` holds nothing but white space.
pub fn is_blank(s: &str) -> (r: bool)
    ensures
        r == blank(s@),
{
    let chars = chars_of(s);
    let mut i: usize = 0;
    while i < chars.len()
        invariant
            i <= chars.len(),
            chars@ == s@,
            forall|j: int| 0 <= j < i ==> white_space(#[trigger] s@[j]),
        decreases chars.len() - i,
    {
        if !is_white_space(chars[i]) {
            assert(!white_space(s@[i as int]));
            return false;
        }
        i = i + 1;
    }
    true
}

/// `c` with an ASCII capital turned into its small letter.
pub open spec fn ascii_lower(c: char) -> char {
    if 'A' <= c <= 'Z' {
        (c as u32 + 32) as char
    } else {
        c
    }
}

pub proof fn lemma_char_by_code(a: char, b: char)
    requires
        a as u32 == b as u32,
    ensures
        a == b,
{
    vstd::utf8::char_u32_cast(a, a as u32);
    vstd::utf8::char_u32_cast(b, b as u32);
}

/// Whether `s`, with its ASCII capitals turned into small letters, is `word`.
pub fn is_word_ignoring_case(s: &str, word: &str) -> (r: bool)
    ensures
        r == (s@.map_values(|c: char| ascii_lower(c)) == word@),
{
    let a = chars_of(s);
    let b = chars_of(word);
    let ghost lowered = s@.map_values(|c: char| ascii_lower(c));
    if a.len() != b.len() {
        assert(lowered.len() != word@.len());
        return false;
    }
    let mut i: usize = 0;
    while i < a.len()
        invariant
            i <= a.len(),
            a@ == s@,
            b@ == word@,
            a.len() == b.len(),
            lowered == s@.map_values(|c: char| ascii_lower(c)),
            forall|j: int| 0 <= j < i ==> lowered[j] == word@[j],
        decreases a.len() - i,
    {
        let u: u32 = a[i] as u32;
        let l: u32 = if 0x41 <= u && u <= 0x5a {
            u + 32
        } else {
            u
        };
        assert(lowered[i as int] == ascii_lower(s@[i as int]));
        assert(l == lowered[i as int] as u32);
        if l != b[i] as u32 {
            assert(lowered[i as int] != word@[i as int]);
            return false;
        }
        proof {
            lemma_char_by_code(lowered[i as int], word@[i as int]);
        }
        i = i + 1;
    }
    assert(lowered =~= word@);
    true
}

/// Where `c` first stands in `s`, or the length of `s` where it does not.
pub open spec fn find_char(s: Seq<char>, c: char) -> nat
    decreases s.len(),
{
    if s.len() == 0 || s[0] == c {
        0
    } else {
        1 + find_char(s.drop_first(), c)
    }
}

/// The first place of `c` is the one that has no `c` before it.
pub proof fn lemma_find_char(s: Seq<char>, c: char, i: int)
    requires
        0 <= i <= s.len(),
        forall|j: int| 0 <= j < i ==> s[j] != c,
        i < s.len() ==> s[i] == c,
    ensures
        find_char(s, c) == i,
    decreases s.len(),
{
    if i > 0 {
        lemma_find_char(s.drop_first(), c, i - 1);
    }
}

/// `line` without the carriage return at its end, if there is one.
pub open spec fn without_cr(line: Seq<char>) -> Seq<char> {
    if line.len() > 0 && line.last() == '\r' {
        line.drop_last()
    } else {
        line
    }
}

/// The lines of `s`. A line ends at a line feed, alone or behind a carriage return; the
/// last one may end with `s`.
pub open spec fn lines(s: Seq<char>) -> Seq<Seq<char>>
    decreases s.len(),
{
    let end = find_char(s, '\n');
    if s.len() == 0 {
        Seq::empty()
    } else if end >= s.len() {
        seq![s]
    } else {
        seq![without_cr(s.take(end as int))] + lines(s.skip(end + 1int))
    }
}

/// The parts of `s` that `spans` marks.
pub open spec fn parts(s: Seq<char>, spans: Seq<(usize, usize)>) -> Seq<Seq<char>> {
    Seq::new(spans.len(), |k: int| s.subrange(spans[k].0 as int, spans[k].1 as int))
}

/// Finds the lines of a text.
pub fn line_spans(chars: &Vec<char>) -> (spans: Vec<(usize, usize)>)
    ensures
        parts(chars@, spans@) == lines(chars@),
        forall|k: int|
            0 <= k < spans@.len() ==> (#[trigger] spans@[k]).0 <= spans@[k].1 <= chars@.len(),
{
    let mut spans: Vec<(usize, usize)> = Vec::new();
    let mut start: usize = 0;
    assert(chars@.skip(0) =~= chars@);
    assert(parts(chars@, spans@) + lines(chars@) =~= lines(chars@));
    while start < chars.len()
        invariant
            start <= chars.len(),
            parts(chars@, spans@) + lines(chars@.skip(start as int)) == lines(chars@),
            forall|k: int|
                0 <= k < spans@.len() ==> (#[trigger] spans@[k]).0 <= spans@[k].1 <= chars@.len(),
        decreases chars.len() - start,
    {
        let ghost rest = chars@.skip(start as int);
        let ghost before = spans@;
        let mut end: usize = start;
        while end < chars.len() && chars[end] != '\n'
            invariant
                start <= end <= chars.len(),
                forall|j: int| start <= j < end ==> chars@[j] != '\n',
            decreases chars.len() - end,
        {
            end = end + 1;
        }
        proof {
            lemma_find_char(rest, '\n', end - start);
        }
        let span: (usize, usize) = if end < chars.len() && end > start && chars[end - 1] == '\r' {
            (start, end - 1)
        } else {
            (start, end)
        };
        spans.push(span);
        let ghost line = chars@.subrange(span.0 as int, span.1 as int);
        assert(parts(chars@, spans@) =~= parts(chars@, before) + seq![line]);
        if end < chars.len() {
            start = end + 1;
            assert(line =~= without_cr(rest.take(find_char(rest, '\n') as int)));
            assert(chars@.skip(start as int) =~= rest.skip(find_char(rest, '\n') + 1int));
        } else {
            start = end;
            assert(line =~= rest);
            assert(lines(chars@.skip(start as int)) =~= Seq::<Seq<char>>::empty());
        }
        assert(parts(chars@, spans@) + lines(chars@.skip(start as int)) =~= parts(chars@, before)
            + (seq![line] + lines(chars@.skip(start as int))));
    }
    assert(lines(chars@.skip(start as int)) =~= Seq::<Seq<char>>::empty());
    assert(parts(chars@, spans@) =~= lines(chars@));
    spans
}

/// Whether the characters of `chars` from `from` to `to` begin with `word`.
pub fn has_word_at(chars: &Vec<char>, from: usize, to: usize, word: &str) -> (r: bool)
    requires
        from <= to <= chars@.len(),
    ensures
        r == word@.is_prefix_of(chars@.subrange(from as int, to as int)),
{
    let word_chars = chars_of(word);
    if to - from < word_chars.len() {
        return false;
    }
    let ghost part = chars@.subrange(from as int, to as int);
    let mut i: usize = 0;
    while i < word_chars.len()
        invariant
            i <= word_chars.len(),
            from + word_chars.len() <= to <= chars.len(),
            word_chars@ == word@,
            part == chars@.subrange(from as int, to as int),
            forall|j: int| 0 <= j < i ==> part[j] == word@[j],
        decreases word_chars.len() - i,
    {
        if chars[from + i] != word_chars[i] {
            assert(part.subrange(0, word@.len() as int)[i as int] != word@[i as int]);
            return false;
        }
        i = i + 1;
    }
    assert(part.subrange(0, word@.len() as int) =~= word@);
    true
}

/// `s` without the white space at its front.
pub open spec fn trim_front(s: Seq<char>) -> Seq<char>
    decreases s.len(),
{
    if s.len() > 0 && white_space(s[0]) {
        trim_front(s.drop_first())
    } else {
        s
    }
}

/// `s` without the white space at its back.
pub open spec fn trim_back(s: Seq<char>) -> Seq<char>
    decreases s.len(),
{
    if s.len() > 0 && white_space(s.last()) {
        trim_back(s.drop_last())
    } else {
        s
    }
}

/// `s` without `word` at its front, however often it is there.
pub open spec fn strip_front(s: Seq<char>, word: Seq<char>) -> Seq<char>
    decreases s.len(),
{
    if word.len() > 0 && word.is_prefix_of(s) {
        strip_front(s.skip(word.len() as int), word)
    } else {
        s
    }
}

/// Where the characters from `from` to `to` begin once the white space at their front is
/// gone.
pub fn after_white_space(chars: &Vec<char>, from: usize, to: usize) -> (a: usize)
    requires
        from <= to <= chars@.len(),
    ensures
        from <= a <= to,
        chars@.subrange(a as int, to as int) == trim_front(
            chars@.subrange(from as int, to as int),
        ),
{
    let mut a: usize = from;
    while a < to && is_white_space(chars[a])
        invariant
            from <= a <= to <= chars.len(),
            trim_front(chars@.subrange(a as int, to as int)) == trim_front(
                chars@.subrange(from as int, to as int),
            ),
        decreases to - a,
    {
        assert(chars@.subrange(a as int, to as int).drop_first() =~= chars@.subrange(
            a + 1,
            to as int,
        ));
        a = a + 1;
    }
    a
}

/// Where the characters from `from` to `to` end once the white space at their back is
/// gone.
pub fn before_white_space(chars: &Vec<char>, from: usize, to: usize) -> (b: usize)
    requires
        from <= to <= chars@.len(),
    ensures
        from <= b <= to,
        chars@.subrange(from as int, b as int) == trim_back(
            chars@.subrange(from as int, to as int),
        ),
{
    let mut b: usize = to;
    while b > from && is_white_space(chars[b - 1])
        invariant
            from <= b <= to <= chars.len(),
            trim_back(chars@.subrange(from as int, b as int)) == trim_back(
                chars@.subrange(from as int, to as int),
            ),
        decreases b,
    {
        assert(chars@.subrange(from as int, b as int).drop_last() =~= chars@.subrange(
            from as int,
            b - 1,
        ));
        b = b - 1;
    }
    b
}

/// Where the characters from `from` to `to` begin once every `word` at their front is
/// gone.
pub fn after_word(chars: &Vec<char>, from: usize, to: usize, word: &str) -> (a: usize)
    requires
        from <= to <= chars@.len(),
        word@.len() > 0,
    ensures
        from <= a <= to,
        chars@.subrange(a as int, to as int) == strip_front(
            chars@.subrange(from as int, to as int),
            word@,
        ),
{
    let len: usize = word.unicode_len();
    let mut a: usize = from;
    while has_word_at(chars, a, to, word)
        invariant
            len == word@.len() > 0,
            from <= a <= to <= chars@.len(),
            strip_front(chars@.subrange(a as int, to as int), word@) == strip_front(
                chars@.subrange(from as int, to as int),
                word@,
            ),
        decreases to - a,
    {
        assert(chars@.subrange(a as int, to as int).skip(len as int) =~= chars@.subrange(
            a + len,
            to as int,
        ));
        a = a + len;
    }
    a
}

/// The number that a digit stands for, small letters above nine.
pub open spec fn digit_value(c: char) -> int {
    if '0' <= c <= '9' {
        c as int - 0x30
    } else {
        c as int - 0x57
    }
}

/// The number that the digits of `s` make up in base `base`.
pub open spec fn number_in(s: Seq<char>, base: int) -> int
    decreases s.len(),
{
    if s.len() == 0 {
        0
    } else {
        number_in(s.drop_last(), base) * base + digit_value(s.last())
    }
}

/// A digit is written by its character: `0` to `9`, and `a` to `f` above.
pub proof fn law_digits(d: nat)
    requires
        d < 16,
    ensures
        d < 10 ==> digit_char(d) as int == 0x30 + d,
        d >= 10 ==> digit_char(d) as int == 0x61 + (d - 10),
        digit_value(digit_char(d)) == d,
        '0' <= digit_char(d) <= '9' || 'a' <= digit_char(d) <= 'f',
{
}

/// A number is written with digits that make it up again, the highest first, and with no
/// zero in front.
pub proof fn law_numerals_read_back(n: nat, base: nat)
    requires
        2 <= base <= 16,
    ensures
        number_in(numeral(n, base), base as int) == n,
        numeral(n, base).len() > 0,
        n > 0 ==> numeral(n, base)[0] != '0',
        n < base ==> numeral(n, base).len() == 1,
        forall|i: int|
            0 <= i < numeral(n, base).len() ==> 0 <= digit_value(#[trigger] numeral(n, base)[i])
                < base,
    decreases n,
{
    let s = numeral(n, base);
    if n < base {
        law_digits(n);
        assert(s.drop_last() =~= Seq::<char>::empty());
        assert(number_in(s.drop_last(), base as int) == 0);
        assert(0 * base == 0);
    } else {
        assert(n / base < n && n / base >= 1 && (n / base) * base + n % base == n && n % base
            < base) by (nonlinear_arith)
            requires
                n >= base >= 2,
        ;
        law_numerals_read_back(n / base, base);
        law_digits(n % base);
        let head = numeral(n / base, base);
        assert(s == head.push(digit_char(n % base)));
        assert(s.drop_last() =~= head);
        assert(s[0] == head[0]);
        assert forall|i: int| 0 <= i < s.len() implies 0 <= digit_value(#[trigger] s[i])
            < base by {
            if i < head.len() {
                assert(s[i] == head[i]);
            }
        }
    }
}

/// Decimal and hexadecimal texts make up their number again.
pub proof fn law_decimal_and_hex_read_back(n: nat)
    ensures
        number_in(decimal(n), 10) == n,
        number_in(hex(n), 16) == n,
        forall|i: int| 0 <= i < decimal(n).len() ==> '0' <= (#[trigger] decimal(n)[i]) <= '9',
{
    law_numerals_read_back(n, 10);
    law_numerals_read_back(n, 16);
    assert forall|i: int| 0 <= i < decimal(n).len() implies '0' <= (#[trigger] decimal(n)[i])
        <= '9' by {
        lemma_decimal_digits(n, i);
    }
}

proof fn lemma_decimal_digits(n: nat, i: int)
    requires
        0 <= i < numeral(n, 10).len(),
    ensures
        '0' <= numeral(n, 10)[i] <= '9',
    decreases n,
{
    if n >= 10 {
        let head = numeral(n / 10, 10);
        if i < head.len() {
            lemma_decimal_digits(n / 10, i);
        }
    }
}

/// The last `width` hexadecimal digits are that many, and make up the number but for the
/// multiples of sixteen to the power of `width`.
pub proof fn law_padded_hex_reads_back(n: nat, width: nat)
    ensures
        padded_hex(n, width).len() == width,
        number_in(padded_hex(n, width), 16) == n as int % pow(16, width),
        forall|i: int|
            0 <= i < width ==> 0 <= digit_value(#[trigger] padded_hex(n, width)[i]) < 16,
    decreases width,
{
    reveal(pow);
    lemma_pow_positive(16, width);
    let s = padded_hex(n, width);
    if width > 0 {
        let w = (width - 1) as nat;
        lemma_pow_positive(16, w);
        law_padded_hex_reads_back(n / 16, w);
        law_digits(n % 16);
        let head = padded_hex(n / 16, w);
        assert(s.drop_last() =~= head);
        lemma_mod_breakdown(n as int, 16, pow(16, w));
        assert(pow(16, width) == 16 * pow(16, w));
        assert forall|i: int| 0 <= i < width implies 0 <= digit_value(#[trigger] s[i]) < 16 by {
            if i < head.len() {
                assert(s[i] == head[i]);
            }
        }
    }
}

/// White space, character by character.
pub proof fn law_white_space(c: char)
    ensures
        white_space(c) <==> {
            let u = c as u32;
            u == 9 || u == 10 || u == 11 || u == 12 || u == 13 || u == 32 || u == 133 || u == 160
                || u == 5760 || u == 8192 || u == 8193 || u == 8194 || u == 8195 || u == 8196 || u
                == 8197 || u == 8198 || u == 8199 || u == 8200 || u == 8201 || u == 8202 || u
                == 8232 || u == 8233 || u == 8239 || u == 8287 || u == 12288
        },
{
}

/// Only the twenty-six capitals change, each to the letter that stands 32 further on.
pub proof fn law_small_letters(c: char)
    ensures
        0x41 <= c as int <= 0x5a ==> ascii_lower(c) as int == c as int + 0x20,
        !(0x41 <= c as int <= 0x5a) ==> ascii_lower(c) == c,
{
}

/// A character is found at its first place.
pub proof fn law_first_place(s: Seq<char>, c: char)
    ensures
        find_char(s, c) <= s.len(),
        find_char(s, c) < s.len() ==> s[find_char(s, c) as int] == c,
        forall|i: int| 0 <= i < find_char(s, c) ==> s[i] != c,
    decreases s.len(),
{
    if s.len() > 0 && s[0] != c {
        law_first_place(s.drop_first(), c);
        assert forall|i: int| 0 <= i < find_char(s, c) implies s[i] != c by {
            if i > 0 {
                assert(s.drop_first()[i - 1] == s[i]);
            }
        }
    }
}

/// A text whose first line is `line` has that line and the lines of the rest. A carriage
/// return goes with the line feed that it stands before. An end without a line feed ends a
/// line too, unless there is nothing in it.
pub proof fn law_lines(line: Seq<char>, rest: Seq<char>)
    requires
        forall|i: int| 0 <= i < line.len() ==> line[i] != '\n',
    ensures
        lines(Seq::empty()) == Seq::<Seq<char>>::empty(),
        line.len() > 0 ==> lines(line) == seq![line],
        line.len() == 0 || line.last() != '\r' ==> lines(line + seq!['\n'] + rest) == seq![line]
            + lines(rest),
        lines(line + seq!['\r', '\n'] + rest) == seq![line] + lines(rest),
{
    lemma_find_char(line, '\n', line.len() as int);
    let plain = line + seq!['\n'] + rest;
    lemma_find_char(plain, '\n', line.len() as int);
    assert(plain.take(line.len() as int) =~= line);
    assert(plain.skip(line.len() + 1int) =~= rest);
    let both = line + seq!['\r', '\n'] + rest;
    lemma_find_char(both, '\n', line.len() + 1int);
    assert(both.take(line.len() + 1int) =~= line.push('\r'));
    assert(line.push('\r').drop_last() =~= line);
    assert(both.skip(line.len() + 2int) =~= rest);
}

/// Trimming takes white space away, all of it at the trimmed end, and nothing else.
pub proof fn law_trimming(s: Seq<char>)
    ensures
        ({
            let t = trim_front(s);
            &&& t.len() <= s.len()
            &&& t == s.skip(s.len() - t.len())
            &&& forall|i: int| 0 <= i < s.len() - t.len() ==> white_space(#[trigger] s[i])
            &&& t.len() > 0 ==> !white_space(t[0])
        }),
        ({
            let t = trim_back(s);
            &&& t.len() <= s.len()
            &&& t == s.take(t.len() as int)
            &&& forall|i: int| t.len() <= i < s.len() ==> white_space(#[trigger] s[i])
            &&& t.len() > 0 ==> !white_space(t.last())
        }),
    decreases s.len(),
{
    if s.len() > 0 && white_space(s[0]) {
        let r = s.drop_first();
        law_trimming(r);
        let t = trim_front(s);
        assert(r.skip(r.len() - t.len()) =~= s.skip(s.len() - t.len()));
        assert forall|i: int| 0 <= i < s.len() - t.len() implies white_space(#[trigger] s[i]) by {
            if i > 0 {
                assert(r[i - 1] == s[i]);
            }
        }
    } else {
        assert(s.skip(0) =~= s);
    }
    if s.len() > 0 && white_space(s.last()) {
        let r = s.drop_last();
        law_trimming(r);
        let t = trim_back(s);
        assert(r.take(t.len() as int) =~= s.take(t.len() as int));
        assert forall|i: int| t.len() <= i < s.len() implies white_space(#[trigger] s[i]) by {
            if i < s.len() - 1 {
                assert(r[i] == s[i]);
            }
        }
    } else {
        assert(s.take(s.len() as int) =~= s);
    }
}

/// A word is taken off the front as often as it is there.
pub proof fn law_stripping(s: Seq<char>, word: Seq<char>)
    requires
        word.len() > 0,
    ensures
        strip_front(word + s, word) == strip_front(s, word),
        !word.is_prefix_of(s) ==> strip_front(s, word) == s,
        !word.is_prefix_of(strip_front(s, word)),
    decreases s.len(),
{
    assert((word + s).subrange(0, word.len() as int) =~= word);
    assert((word + s).skip(word.len() as int) =~= s);
    if word.is_prefix_of(s) {
        law_stripping(s.skip(word.len() as int), word);
    }
}

/// A text is blank exactly where trimming it leaves nothing.
pub proof fn law_blank_texts_trim_to_nothing(s: Seq<char>)
    ensures
        blank(s) <==> trim_front(s).len() == 0,
        blank(s) <==> trim_back(s).len() == 0,
{
    law_trimming(s);
    if trim_front(s).len() > 0 {
        let a = s.len() - trim_front(s).len();
        assert(trim_front(s)[0] == s[a]);
    }
    if trim_back(s).len() > 0 {
        assert(trim_back(s).last() == s[trim_back(s).len() - 1]);
    }
}

} // verus!
