//! Small verified text utilities: character/string conversions, decimal
//! formatting and parsing, and whitespace splitting.

use vstd::prelude::*;

verus! {

/// What the result of `str::to_lowercase` is, as a function of the input
/// characters alone.
pub uninterp spec fn lower_of(s: Seq<char>) -> Seq<char>;

/// Relies on `str::to_lowercase`: the result depends on the characters alone,
/// and an empty string stays empty.
#[verifier::external_body]
pub(crate) fn to_lowercase(s: &str) -> (r: String)
    ensures
        r@ == lower_of(s@),
        s@.len() == 0 ==> r@.len() == 0,
{
    s.to_lowercase()
}

/// Relies on `String::from_iter` over `char`: builds the string holding
/// exactly the given characters.
#[verifier::external_body]
pub(crate) fn chars_to_string(v: &Vec<char>) -> (r: String)
    ensures
        r@ == v@,
{
    v.iter().copied().collect()
}

/// Collects the characters of a string slice into a vector.
pub fn str_to_chars(s: &str) -> (r: Vec<char>)
    ensures
        r@ == s@,
{
    let n = s.unicode_len();
    let mut out: Vec<char> = Vec::new();
    let mut i: usize = 0;
    while i < n
        invariant
            n == s@.len(),
            i <= n,
            out@ == s@.take(i as int),
        decreases n - i,
    {
        let c = s.get_char(i);
        out.push(c);
        i = i + 1;
        proof {
            assert(out@ =~= s@.take(i as int));
        }
    }
    proof {
        assert(s@.take(n as int) =~= s@);
    }
    out
}

/// Equality of two string slices, decided character by character.
pub fn str_eq(a: &str, b: &str) -> (r: bool)
    ensures
        r == (a@ == b@),
{
    let na = a.unicode_len();
    let nb = b.unicode_len();
    if na != nb {
        proof {
            assert(a@.len() != b@.len());
        }
        return false;
    }
    let mut i: usize = 0;
    while i < na
        invariant
            na == a@.len(),
            na == b@.len(),
            i <= na,
            forall|j: int| 0 <= j < i ==> a@[j] == b@[j],
        decreases na - i,
    {
        if a.get_char(i) != b.get_char(i) {
            return false;
        }
        i = i + 1;
    }
    proof {
        assert(a@ =~= b@);
    }
    true
}

/// The decimal digit characters, by value.
pub open spec fn digit_char(d: nat) -> char {
    if d == 0 {
        '0'
    } else if d == 1 {
        '1'
    } else if d == 2 {
        '2'
    } else if d == 3 {
        '3'
    } else if d == 4 {
        '4'
    } else if d == 5 {
        '5'
    } else if d == 6 {
        '6'
    } else if d == 7 {
        '7'
    } else if d == 8 {
        '8'
    } else {
        '9'
    }
}

/// The value of a decimal digit character, if it is one.
pub open spec fn digit_value(c: char) -> Option<nat> {
    if c == '0' {
        Some(0nat)
    } else if c == '1' {
        Some(1nat)
    } else if c == '2' {
        Some(2nat)
    } else if c == '3' {
        Some(3nat)
    } else if c == '4' {
        Some(4nat)
    } else if c == '5' {
        Some(5nat)
    } else if c == '6' {
        Some(6nat)
    } else if c == '7' {
        Some(7nat)
    } else if c == '8' {
        Some(8nat)
    } else if c == '9' {
        Some(9nat)
    } else {
        None
    }
}

/// Decimal notation of a natural number, most significant digit first.
pub open spec fn spec_dec(n: nat) -> Seq<char>
    decreases n,
{
    if n < 10 {
        seq![digit_char(n)]
    } else {
        spec_dec(n / 10).push(digit_char(n % 10))
    }
}

/// Decimal notation of an integer: a minus sign for negative values.
pub open spec fn spec_dec_int(n: int) -> Seq<char> {
    if n < 0 {
        seq!['-'] + spec_dec((-n) as nat)
    } else {
        spec_dec(n as nat)
    }
}

fn digit_to_char(d: u64) -> (c: char)
    requires
        d < 10,
    ensures
        c == digit_char(d as nat),
{
    if d == 0 {
        '0'
    } else if d == 1 {
        '1'
    } else if d == 2 {
        '2'
    } else if d == 3 {
        '3'
    } else if d == 4 {
        '4'
    } else if d == 5 {
        '5'
    } else if d == 6 {
        '6'
    } else if d == 7 {
        '7'
    } else if d == 8 {
        '8'
    } else {
        '9'
    }
}

pub fn char_to_digit(c: char) -> (r: Option<u64>)
    ensures
        r matches Some(d) ==> digit_value(c) == Some(d as nat),
        r is None ==> digit_value(c) is None,
{
    if c == '0' {
        Some(0)
    } else if c == '1' {
        Some(1)
    } else if c == '2' {
        Some(2)
    } else if c == '3' {
        Some(3)
    } else if c == '4' {
        Some(4)
    } else if c == '5' {
        Some(5)
    } else if c == '6' {
        Some(6)
    } else if c == '7' {
        Some(7)
    } else if c == '8' {
        Some(8)
    } else if c == '9' {
        Some(9)
    } else {
        None
    }
}

/// Appends the decimal notation of `n` to `out`.
pub fn push_dec_u64(out: &mut Vec<char>, n: u64)
    ensures
        final(out)@ == old(out)@ + spec_dec(n as nat),
    decreases n,
{
    if n < 10 {
        out.push(digit_to_char(n));
    } else {
        push_dec_u64(out, n / 10);
        out.push(digit_to_char(n % 10));
        proof {
            assert(old(out)@ + spec_dec((n / 10) as nat) + seq![
                digit_char((n % 10) as nat),
            ] =~= old(out)@ + spec_dec(n as nat));
        }
    }
}

/// Appends the decimal notation of `n` to `out`.
pub fn push_dec_u128(out: &mut Vec<char>, n: u128)
    ensures
        final(out)@ == old(out)@ + spec_dec(n as nat),
    decreases n,
{
    if n < 10 {
        out.push(digit_to_char((n % 10) as u64));
    } else {
        push_dec_u128(out, n / 10);
        out.push(digit_to_char((n % 10) as u64));
        proof {
            assert(old(out)@ + spec_dec((n / 10) as nat) + seq![
                digit_char((n % 10) as nat),
            ] =~= old(out)@ + spec_dec(n as nat));
        }
    }
}

/// Appends the decimal notation of `n` to `out`, with a sign when negative.
pub fn push_dec_i64(out: &mut Vec<char>, n: i64)
    ensures
        final(out)@ == old(out)@ + spec_dec_int(n as int),
{
    if n < 0 {
        out.push('-');
        let wide: i128 = n as i128;
        let mag: u64 = (-wide) as u64;
        proof {
            assert(mag as nat == (-(n as int)) as nat);
        }
        push_dec_u64(out, mag);
        proof {
            assert(old(out)@ + seq!['-'] + spec_dec(mag as nat) =~= old(out)@ + spec_dec_int(
                n as int,
            ));
        }
    } else {
        push_dec_u64(out, n as u64);
    }
}

/// The value of a non-empty run of decimal digits, or `None` if any character
/// is not a digit.
pub open spec fn spec_digits_value(s: Seq<char>) -> Option<nat>
    decreases s.len(),
{
    if s.len() == 0 {
        None
    } else if s.len() == 1 {
        digit_value(s[0])
    } else {
        match spec_digits_value(s.drop_last()) {
            None => None,
            Some(v) => match digit_value(s.last()) {
                None => None,
                Some(d) => Some(v * 10 + d),
            },
        }
    }
}

/// An unsigned decimal number: an optional leading `+`, then digits.
pub open spec fn spec_parse_unsigned(s: Seq<char>) -> Option<nat> {
    if s.len() > 0 && s[0] == '+' {
        spec_digits_value(s.skip(1))
    } else {
        spec_digits_value(s)
    }
}

/// A signed decimal number: an optional leading `+` or `-`, then digits.
pub open spec fn spec_parse_signed(s: Seq<char>) -> Option<int> {
    if s.len() > 0 && s[0] == '-' {
        match spec_digits_value(s.skip(1)) {
            None => None,
            Some(v) => Some(-(v as int)),
        }
    } else {
        match spec_parse_unsigned(s) {
            None => None,
            Some(v) => Some(v as int),
        }
    }
}

proof fn lemma_digits_value_grows(s: Seq<char>, i: int)
    requires
        0 <= i <= s.len(),
        spec_digits_value(s) is Some,
    ensures
        i > 0 ==> spec_digits_value(s.take(i)) is Some,
        i > 0 ==> spec_digits_value(s.take(i)).unwrap() <= spec_digits_value(s).unwrap(),
    decreases s.len() - i,
{
    if i == s.len() {
        assert(s.take(i) =~= s);
    } else {
        lemma_digits_value_grows(s, i + 1);
        if i > 0 {
            let t = s.take(i + 1);
            assert(t.drop_last() =~= s.take(i));
            assert(t.last() == s[i]);
            assert(spec_digits_value(s.take(i + 1)) is Some);
            if i + 1 == 1 {
            } else {
                assert(spec_digits_value(s.take(i)) is Some);
                assert(spec_digits_value(s.take(i)).unwrap() <= spec_digits_value(
                    s.take(i + 1),
                ).unwrap());
            }
        }
    }
}

/// Parses a run of decimal digits as a `u64`; `None` on any non-digit, an
/// empty run, or a value that does not fit.
pub fn parse_digits_u64(s: &[char]) -> (r: Option<u64>)
    ensures
        match r {
            Some(v) => spec_digits_value(s@) == Some(v as nat),
            None => spec_digits_value(s@) is None || spec_digits_value(s@).unwrap() > u64::MAX,
        },
{
    if s.len() == 0 {
        return None;
    }
    let mut acc: u64 = 0;
    let mut i: usize = 0;
    while i < s.len()
        invariant
            i <= s@.len(),
            i > 0 ==> spec_digits_value(s@.take(i as int)) == Some(acc as nat),
            i == 0 ==> acc == 0,
            s@.len() > 0,
        decreases s@.len() - i,
    {
        let d = match char_to_digit(s[i]) {
            Some(d) => d,
            None => {
                proof {
                    digits_value_none_from_bad_digit(s@, i as int);
                }
                return None;
            },
        };
        if acc > (u64::MAX - d) / 10 {
            proof {
                assert(spec_digits_value(s@.take(i as int + 1)) == Some(
                    (acc * 10 + d) as nat,
                )) by {
                    let t = s@.take(i as int + 1);
                    assert(t.drop_last() =~= s@.take(i as int));
                    assert(t.last() == s@[i as int]);
                };
                assert(acc * 10 + d > u64::MAX);
                if spec_digits_value(s@) is Some {
                    lemma_digits_value_grows(s@, i as int + 1);
                }
            }
            return None;
        }
        let new_acc = acc * 10 + d;
        proof {
            let t = s@.take(i as int + 1);
            assert(t.drop_last() =~= s@.take(i as int));
            assert(t.last() == s@[i as int]);
            if i == 0 {
                assert(t.len() == 1);
                assert(spec_digits_value(t) == digit_value(s@[0]));
            }
        }
        acc = new_acc;
        i = i + 1;
    }
    proof {
        assert(s@.take(s@.len() as int) =~= s@);
    }
    Some(acc)
}

proof fn digits_value_none_from_bad_digit(s: Seq<char>, i: int)
    requires
        0 <= i < s.len(),
        digit_value(s[i]) is None,
    ensures
        spec_digits_value(s) is None,
    decreases s.len(),
{
    if s.len() == 1 {
    } else if i == s.len() - 1 {
    } else {
        assert(s.drop_last()[i] == s[i]);
        digits_value_none_from_bad_digit(s.drop_last(), i);
    }
}

/// Parses an unsigned decimal number with optional leading `+`.
pub fn parse_unsigned_u64(s: &Vec<char>) -> (r: Option<u64>)
    ensures
        match r {
            Some(v) => spec_parse_unsigned(s@) == Some(v as nat),
            None => spec_parse_unsigned(s@) is None || spec_parse_unsigned(s@).unwrap()
                > u64::MAX,
        },
{
    if s.len() > 0 && s[0] == '+' {
        let r = parse_digits_u64(vstd::slice::slice_subrange(s.as_slice(), 1, s.len()));
        proof {
            assert(s@.subrange(1, s@.len() as int) =~= s@.skip(1));
        }
        r
    } else {
        parse_digits_u64(s.as_slice())
    }
}

/// Parses a signed decimal number with optional leading `+` or `-`.  The
/// magnitude must fit in an `i64` (so `i64::MIN` itself is rejected, which is
/// harmless here: every caller range-checks far below that).
pub fn parse_signed_i64(s: &Vec<char>) -> (r: Option<i64>)
    ensures
        match r {
            Some(v) => spec_parse_signed(s@) == Some(v as int),
            None => spec_parse_signed(s@) is None || spec_parse_signed(s@).unwrap() > i64::MAX
                || spec_parse_signed(s@).unwrap() < -i64::MAX,
        },
{
    if s.len() > 0 && s[0] == '-' {
        let mag = parse_digits_u64(vstd::slice::slice_subrange(s.as_slice(), 1, s.len()));
        proof {
            assert(s@.subrange(1, s@.len() as int) =~= s@.skip(1));
        }
        match mag {
            None => None,
            Some(v) => {
                if v > i64::MAX as u64 {
                    None
                } else {
                    Some(-(v as i64))
                }
            },
        }
    } else {
        match parse_unsigned_u64(s) {
            None => None,
            Some(v) => {
                if v > i64::MAX as u64 {
                    None
                } else {
                    Some(v as i64)
                }
            },
        }
    }
}

/// The ASCII whitespace characters this crate splits words on.
pub open spec fn spec_is_ws(c: char) -> bool {
    c == ' ' || c == '\t' || c == '\n' || c == '\r'
}

fn is_ws(c: char) -> (r: bool)
    ensures
        r == spec_is_ws(c),
{
    c == ' ' || c == '\t' || c == '\n' || c == '\r'
}

/// The words of `s`: maximal runs of non-whitespace characters, in order.
pub open spec fn spec_words(s: Seq<char>) -> Seq<Seq<char>>
    decreases s.len(),
    via spec_words_decreases
{
    if s.len() == 0 {
        seq![]
    } else if spec_is_ws(s[0]) {
        spec_words(s.skip(1))
    } else {
        let w = spec_first_word(s);
        seq![w] + spec_words(s.skip(w.len() as int))
    }
}

#[via_fn]
proof fn spec_words_decreases(s: Seq<char>) {
    if s.len() > 0 && !spec_is_ws(s[0]) {
        lemma_first_word_len(s);
    }
}

pub proof fn lemma_first_word_len(s: Seq<char>)
    ensures
        spec_first_word(s).len() <= s.len(),
        s.len() > 0 && !spec_is_ws(s[0]) ==> spec_first_word(s).len() >= 1,
    decreases s.len(),
{
    if s.len() > 0 && !spec_is_ws(s[0]) {
        lemma_first_word_len(s.skip(1));
    }
}

/// The first maximal run of non-whitespace characters of `s`.
pub open spec fn spec_first_word(s: Seq<char>) -> Seq<char>
    decreases s.len(),
{
    if s.len() == 0 || spec_is_ws(s[0]) {
        seq![]
    } else {
        seq![s[0]] + spec_first_word(s.skip(1))
    }
}

proof fn lemma_first_word_take(s: Seq<char>, i: int)
    requires
        0 <= i <= s.len(),
        forall|j: int| 0 <= j < i ==> !spec_is_ws(s[j]),
        i < s.len() ==> spec_is_ws(s[i]),
    ensures
        spec_first_word(s) == s.take(i),
    decreases s.len(),
{
    if s.len() == 0 {
        assert(spec_first_word(s) =~= s.take(i));
    } else if i == 0 {
        assert(spec_first_word(s) =~= s.take(0));
    } else {
        assert(!spec_is_ws(s[0]));
        lemma_first_word_take(s.skip(1), i - 1);
        assert(spec_first_word(s) == seq![s[0]] + s.skip(1).take(i - 1));
        assert(seq![s[0]] + s.skip(1).take(i - 1) =~= s.take(i));
    }
}

/// Splits `s` into its whitespace-separated words.
pub fn split_words(s: &Vec<char>) -> (r: Vec<Vec<char>>)
    ensures
        r@.map_values(|w: Vec<char>| w@) == spec_words(s@),
{
    let mut out: Vec<Vec<char>> = Vec::new();
    let n = s.len();
    let mut i: usize = 0;
    proof {
        assert(s@.skip(0) =~= s@);
        assert(out@.map_values(|w: Vec<char>| w@) + spec_words(s@) =~= spec_words(s@));
    }
    while i < n
        invariant
            i <= n,
            n == s@.len(),
            spec_words(s@) == out@.map_values(|w: Vec<char>| w@) + spec_words(s@.skip(i as int)),
        decreases n - i,
    {
        if is_ws(s[i]) {
            proof {
                assert(s@.skip(i as int).skip(1) =~= s@.skip(i as int + 1));
            }
            i = i + 1;
        } else {
            let start = i;
            let mut w: Vec<char> = Vec::new();
            while i < n && !is_ws(s[i])
                invariant
                    start <= i <= n,
                    n == s@.len(),
                    w@ == s@.subrange(start as int, i as int),
                    forall|j: int| start <= j < i ==> !spec_is_ws(s@[j]),
                    !spec_is_ws(s@[start as int]),
                    start < n,
                decreases n - i,
            {
                w.push(s[i]);
                proof {
                    assert(w@ =~= s@.subrange(start as int, i as int + 1));
                }
                i = i + 1;
            }
            proof {
                let tail = s@.skip(start as int);
                lemma_first_word_take(tail, i - start);
                assert(tail.take(i - start) =~= s@.subrange(start as int, i as int));
                assert(spec_first_word(tail) == w@);
                assert(tail.skip(w@.len() as int) =~= s@.skip(i as int));
                assert(spec_words(s@.skip(start as int)) == seq![w@] + spec_words(
                    s@.skip(i as int),
                ));
            }
            let ghost old_out = out@;
            out.push(w);
            proof {
                assert(out@.map_values(|x: Vec<char>| x@) =~= old_out.map_values(
                    |x: Vec<char>| x@,
                ) + seq![w@]);
                assert(old_out.map_values(|x: Vec<char>| x@) + seq![w@] + spec_words(
                    s@.skip(i as int),
                ) =~= old_out.map_values(|x: Vec<char>| x@) + (seq![w@] + spec_words(
                    s@.skip(i as int),
                )));
            }
        }
    }
    proof {
        assert(s@.skip(n as int) =~= Seq::<char>::empty());
        assert(out@.map_values(|w: Vec<char>| w@) + spec_words(s@.skip(n as int)) =~= out@.map_values(
            |w: Vec<char>| w@,
        ));
    }
    out
}

/// The words joined with single spaces.
pub open spec fn spec_join_spaces(ws: Seq<Seq<char>>) -> Seq<char>
    decreases ws.len(),
{
    if ws.len() == 0 {
        seq![]
    } else if ws.len() == 1 {
        ws[0]
    } else {
        ws[0] + seq![' '] + spec_join_spaces(ws.skip(1))
    }
}

/// Joins words with single spaces.
pub fn join_spaces(ws: &Vec<Vec<char>>, from: usize) -> (r: Vec<char>)
    requires
        from <= ws@.len(),
    ensures
        r@ == spec_join_spaces(ws@.map_values(|w: Vec<char>| w@).skip(from as int)),
    decreases ws@.len() - from,
{
    let mut out: Vec<char> = Vec::new();
    if from >= ws.len() {
        proof {
            assert(ws@.map_values(|w: Vec<char>| w@).skip(from as int) =~= Seq::<
                Seq<char>,
            >::empty());
        }
        return out;
    }
    let w = &ws[from];
    let mut j: usize = 0;
    while j < w.len()
        invariant
            j <= w@.len(),
            out@ == w@.take(j as int),
        decreases w@.len() - j,
    {
        out.push(w[j]);
        proof {
            assert(out@ =~= w@.take(j as int + 1));
        }
        j = j + 1;
    }
    proof {
        assert(w@.take(w@.len() as int) =~= w@);
    }
    if from + 1 < ws.len() {
        out.push(' ');
        let rest = join_spaces(ws, from + 1);
        let mut k: usize = 0;
        while k < rest.len()
            invariant
                k <= rest@.len(),
                out@ == w@ + seq![' '] + rest@.take(k as int),
            decreases rest@.len() - k,
        {
            out.push(rest[k]);
            proof {
                assert(out@ =~= w@ + seq![' '] + rest@.take(k as int + 1));
            }
            k = k + 1;
        }
        proof {
            let mapped = ws@.map_values(|x: Vec<char>| x@);
            assert(rest@.take(rest@.len() as int) =~= rest@);
            assert(mapped.skip(from as int)[0] == w@);
            assert(mapped.skip(from as int).skip(1) =~= mapped.skip(from as int + 1));
            assert(mapped.skip(from as int).len() > 1);
        }
    } else {
        proof {
            let mapped = ws@.map_values(|x: Vec<char>| x@);
            assert(mapped.skip(from as int).len() == 1);
            assert(mapped.skip(from as int)[0] == w@);
        }
    }
    out
}

/// Replaces every underscore with a space.
pub fn underscores_to_spaces(s: &Vec<char>) -> (r: Vec<char>)
    ensures
        r@ == s@.map_values(
            |c: char|
                if c == '_' {
                    ' '
                } else {
                    c
                },
        ),
{
    let mut out: Vec<char> = Vec::new();
    let mut i: usize = 0;
    while i < s.len()
        invariant
            i <= s@.len(),
            out@ == s@.take(i as int).map_values(
                |c: char|
                    if c == '_' {
                        ' '
                    } else {
                        c
                    },
            ),
        decreases s@.len() - i,
    {
        let c = s[i];
        if c == '_' {
            out.push(' ');
        } else {
            out.push(c);
        }
        proof {
            assert(out@ =~= s@.take(i as int + 1).map_values(
                |c: char|
                    if c == '_' {
                        ' '
                    } else {
                        c
                    },
            ));
        }
        i = i + 1;
    }
    proof {
        assert(s@.take(s@.len() as int) =~= s@);
    }
    out
}


/// Whether `needle` occurs contiguously anywhere in `hay`.
pub open spec fn spec_contains_sub(hay: Seq<char>, needle: Seq<char>) -> bool {
    exists|k: int|
        0 <= k && k + needle.len() <= hay.len() && #[trigger] hay.subrange(
            k,
            k + needle.len() as int,
        ) == needle
}

/// Whether two texts are the same, character for character.
pub fn chars_eq(a: &Vec<char>, b: &Vec<char>) -> (r: bool)
    ensures
        r == (a@ == b@),
{
    if a.len() != b.len() {
        return false;
    }
    let mut i: usize = 0;
    while i < a.len()
        invariant
            a@.len() == b@.len(),
            i <= a@.len(),
            forall|k: int| 0 <= k < i ==> a@[k] == b@[k],
        decreases a@.len() - i,
    {
        if a[i] != b[i] {
            return false;
        }
        i = i + 1;
    }
    proof {
        assert(a@ =~= b@);
    }
    true
}

/// Substring search, position by position.
pub fn contains_sub(hay: &Vec<char>, needle: &Vec<char>) -> (r: bool)
    ensures
        r == spec_contains_sub(hay@, needle@),
{
    if needle.len() > hay.len() {
        proof {
            assert(!spec_contains_sub(hay@, needle@));
        }
        return false;
    }
    if needle.len() == 0 {
        proof {
            assert(hay@.subrange(0, 0 + needle@.len() as int) =~= needle@);
        }
        return true;
    }
    let mut k: usize = 0;
    while k <= hay.len() - needle.len()
        invariant
            1 <= needle@.len() <= hay@.len(),
            k <= hay@.len() - needle@.len() + 1,
            forall|p: int|
                0 <= p < k ==> #[trigger] hay@.subrange(p, p + needle@.len() as int) != needle@,
        decreases hay@.len() - needle@.len() + 1 - k,
    {
        let piece = sub_chars(hay, k, k + needle.len());
        if chars_eq(&piece, needle) {
            return true;
        }
        k = k + 1;
    }
    proof {
        assert forall|p: int|
            0 <= p && p + needle@.len() <= hay@.len() implies #[trigger] hay@.subrange(
            p,
            p + needle@.len() as int,
        ) != needle@ by {
            assert(p < k);
        }
    }
    false
}

/// The index of the first occurrence of `c`, or -1.
pub open spec fn spec_char_idx(s: Seq<char>, c: char) -> int
    decreases s.len(),
{
    if s.len() == 0 {
        -1
    } else if s[0] == c {
        0
    } else {
        let r = spec_char_idx(s.skip(1), c);
        if r < 0 {
            -1
        } else {
            r + 1
        }
    }
}

pub proof fn lemma_char_idx_at(s: Seq<char>, c: char, i: int)
    requires
        0 <= i < s.len(),
        s[i] == c,
        forall|k: int| 0 <= k < i ==> s[k] != c,
    ensures
        spec_char_idx(s, c) == i,
    decreases s.len(),
{
    if i > 0 {
        assert(s.skip(1)[i - 1] == s[i]);
        assert forall|k: int| 0 <= k < i - 1 implies s.skip(1)[k] != c by {
            assert(s.skip(1)[k] == s[k + 1]);
        }
        lemma_char_idx_at(s.skip(1), c, i - 1);
    }
}

pub proof fn lemma_char_idx_bounds(s: Seq<char>, c: char)
    ensures
        spec_char_idx(s, c) >= 0 ==> spec_char_idx(s, c) < s.len(),
    decreases s.len(),
{
    if s.len() > 0 && s[0] != c {
        lemma_char_idx_bounds(s.skip(1), c);
    }
}

pub proof fn lemma_char_idx_none(s: Seq<char>, c: char)
    requires
        forall|k: int| 0 <= k < s.len() ==> s[k] != c,
    ensures
        spec_char_idx(s, c) == -1,
    decreases s.len(),
{
    if s.len() > 0 {
        assert forall|k: int| 0 <= k < s.skip(1).len() implies s.skip(1)[k] != c by {
            assert(s.skip(1)[k] == s[k + 1]);
        }
        lemma_char_idx_none(s.skip(1), c);
    }
}

/// The text before the first `sep`, or the whole text without one.
pub open spec fn spec_before_sep(s: Seq<char>, sep: char) -> Seq<char> {
    if spec_char_idx(s, sep) < 0 {
        s
    } else {
        s.take(spec_char_idx(s, sep))
    }
}

/// The text between the first and second `sep`, if a first `sep` exists.
pub open spec fn spec_second_field(s: Seq<char>, sep: char) -> Option<Seq<char>> {
    if spec_char_idx(s, sep) < 0 {
        None
    } else {
        Some(spec_before_sep(s.skip(spec_char_idx(s, sep) + 1), sep))
    }
}

/// The index of the first occurrence of `c`.
pub fn find_char(s: &Vec<char>, c: char) -> (r: Option<usize>)
    ensures
        match r {
            Some(i) => spec_char_idx(s@, c) == i && i < s@.len(),
            None => spec_char_idx(s@, c) == -1,
        },
{
    let mut i: usize = 0;
    while i < s.len()
        invariant
            i <= s@.len(),
            forall|k: int| 0 <= k < i ==> s@[k] != c,
        decreases s@.len() - i,
    {
        if s[i] == c {
            proof {
                lemma_char_idx_at(s@, c, i as int);
            }
            return Some(i);
        }
        i = i + 1;
    }
    proof {
        lemma_char_idx_none(s@, c);
    }
    None
}

/// Copies the characters of `s` from `from` (inclusive) to `to` (exclusive).
pub fn sub_chars(s: &Vec<char>, from: usize, to: usize) -> (r: Vec<char>)
    requires
        from <= to <= s@.len(),
    ensures
        r@ == s@.subrange(from as int, to as int),
{
    let mut out: Vec<char> = Vec::new();
    let mut i: usize = from;
    while i < to
        invariant
            from <= i <= to <= s@.len(),
            out@ == s@.subrange(from as int, i as int),
        decreases to - i,
    {
        out.push(s[i]);
        proof {
            assert(out@ =~= s@.subrange(from as int, i as int + 1));
        }
        i = i + 1;
    }
    out
}

/// Splits off the text before the first `sep`, and the text between the
/// first and second `sep` when a first one exists.
pub fn split_two(s: &Vec<char>, sep: char) -> (r: (Vec<char>, Option<Vec<char>>))
    ensures
        r.0@ == spec_before_sep(s@, sep),
        match r.1 {
            Some(v) => spec_second_field(s@, sep) == Some(v@),
            None => spec_second_field(s@, sep) is None,
        },
{
    match find_char(s, sep) {
        None => {
            let mut whole: Vec<char> = Vec::new();
            let mut i: usize = 0;
            while i < s.len()
                invariant
                    i <= s@.len(),
                    whole@ == s@.take(i as int),
                decreases s@.len() - i,
            {
                whole.push(s[i]);
                proof {
                    assert(whole@ =~= s@.take(i as int + 1));
                }
                i = i + 1;
            }
            proof {
                assert(s@.take(s@.len() as int) =~= s@);
            }
            (whole, None)
        },
        Some(i) => {
            let n = s.len();
            let first = sub_chars(s, 0, i);
            proof {
                assert(s@.subrange(0, i as int) =~= s@.take(i as int));
                assert(i < n);
            }
            let rest = sub_chars(s, i + 1, n);
            proof {
                assert(s@.subrange(i as int + 1, s@.len() as int) =~= s@.skip(i as int + 1));
            }
            let second = match find_char(&rest, sep) {
                None => {
                    proof {
                        assert(rest@.take(rest@.len() as int) =~= rest@);
                    }
                    rest
                },
                Some(j) => {
                    let cut = sub_chars(&rest, 0, j);
                    proof {
                        assert(rest@.subrange(0, j as int) =~= rest@.take(j as int));
                    }
                    cut
                },
            };
            (first, Some(second))
        },
    }
}

/// Lexicographic order on texts, by character code.
pub open spec fn spec_lex_le(a: Seq<char>, b: Seq<char>) -> bool
    decreases a.len(),
{
    if a.len() == 0 {
        true
    } else if b.len() == 0 {
        false
    } else if (a[0] as u32) < (b[0] as u32) {
        true
    } else if (a[0] as u32) > (b[0] as u32) {
        false
    } else {
        spec_lex_le(a.skip(1), b.skip(1))
    }
}

/// Decides the lexicographic order of two texts.
pub fn lex_le(a: &Vec<char>, b: &Vec<char>) -> (r: bool)
    ensures
        r == spec_lex_le(a@, b@),
    decreases a@.len(),
{
    let mut i: usize = 0;
    proof {
        assert(a@.skip(0) =~= a@);
        assert(b@.skip(0) =~= b@);
    }
    while i < a.len() && i < b.len()
        invariant
            i <= a@.len(),
            i <= b@.len(),
            spec_lex_le(a@, b@) == spec_lex_le(a@.skip(i as int), b@.skip(i as int)),
        decreases a@.len() - i,
    {
        proof {
            assert(a@.skip(i as int)[0] == a@[i as int]);
            assert(b@.skip(i as int)[0] == b@[i as int]);
            assert(a@.skip(i as int).skip(1) =~= a@.skip(i as int + 1));
            assert(b@.skip(i as int).skip(1) =~= b@.skip(i as int + 1));
        }
        let ca = a[i] as u32;
        let cb = b[i] as u32;
        if ca < cb {
            return true;
        }
        if ca > cb {
            return false;
        }
        i = i + 1;
    }
    proof {
        if i >= a@.len() {
            assert(a@.skip(i as int).len() == 0);
        } else {
            assert(b@.skip(i as int).len() == 0);
            assert(a@.skip(i as int).len() > 0);
        }
    }
    a.len() <= b.len()
}

/// A maximal first word either ends the text or is followed by whitespace.
pub proof fn lemma_first_word_stops(s: Seq<char>)
    requires
        s.len() > 0,
        !spec_is_ws(s[0]),
    ensures
        spec_first_word(s).len() <= s.len(),
        spec_first_word(s).len() < s.len() ==> spec_is_ws(s[spec_first_word(s).len() as int]),
    decreases s.len(),
{
    lemma_first_word_len(s);
    let w = spec_first_word(s);
    if s.len() > 1 {
        if spec_is_ws(s.skip(1)[0]) {
            assert(spec_first_word(s.skip(1)) =~= Seq::<char>::empty());
            assert(w.len() == 1);
        } else {
            lemma_first_word_stops(s.skip(1));
            let w1 = spec_first_word(s.skip(1));
            assert(w.len() == 1 + w1.len());
            if w.len() < s.len() {
                assert(s.skip(1)[w1.len() as int] == s[w.len() as int]);
            }
        }
    }
}

/// The words of a text, joined back with single spaces, are no longer than
/// the text.
pub proof fn lemma_join_words_len(s: Seq<char>)
    ensures
        spec_join_spaces(spec_words(s)).len() <= s.len(),
    decreases s.len(),
{
    if s.len() == 0 {
    } else if spec_is_ws(s[0]) {
        lemma_join_words_len(s.skip(1));
    } else {
        let w = spec_first_word(s);
        lemma_first_word_stops(s);
        let tail = s.skip(w.len() as int);
        let rest = spec_words(tail);
        let ws = spec_words(s);
        assert(ws == seq![w] + rest);
        assert(ws[0] == w);
        if rest.len() == 0 {
            assert(ws.len() == 1);
            assert(spec_join_spaces(ws) == w);
        } else {
            assert(tail.len() > 0);
            assert(w.len() < s.len());
            assert(spec_is_ws(s[w.len() as int]));
            assert(tail[0] == s[w.len() as int]);
            assert(rest == spec_words(tail.skip(1)));
            lemma_join_words_len(tail.skip(1));
            assert(ws.skip(1) =~= rest);
            assert(spec_join_spaces(ws) == w + seq![' '] + spec_join_spaces(rest));
            assert(tail.skip(1).len() == s.len() - w.len() - 1);
        }
    }
}

/// Dropping the first word cannot lengthen the joined text.
pub proof fn lemma_join_suffix(ws: Seq<Seq<char>>)
    requires
        ws.len() >= 1,
    ensures
        spec_join_spaces(ws.skip(1)).len() <= spec_join_spaces(ws).len(),
{
    if ws.len() == 1 {
        assert(ws.skip(1).len() == 0);
    }
}

} // verus!
