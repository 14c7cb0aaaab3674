//! Fuzzy text lookup: a bigram-overlap (Dice coefficient) score, computed
//! exactly as a rational number.
//!
//! Floating point stays outside this library, and nothing here needs it: the
//! score of two texts is `2*i / (na + nb - 2)` with `i` the number of shared
//! bigrams, compared across candidates by cross-multiplication.  Whitespace
//! is stripped first; two equal or two empty texts score 1; a text of one
//! character has no bigram and scores 0.  Case folding for candidates is
//! ASCII (`A`-`Z`), written out here so that the score is a function the
//! proofs can see through.

use vstd::prelude::*;

use crate::text::spec_is_ws;

verus! {

/// ASCII case folding of one character.
pub open spec fn spec_fold_char(c: char) -> char {
    if c == 'A' {
        'a'
    } else if c == 'B' {
        'b'
    } else if c == 'C' {
        'c'
    } else if c == 'D' {
        'd'
    } else if c == 'E' {
        'e'
    } else if c == 'F' {
        'f'
    } else if c == 'G' {
        'g'
    } else if c == 'H' {
        'h'
    } else if c == 'I' {
        'i'
    } else if c == 'J' {
        'j'
    } else if c == 'K' {
        'k'
    } else if c == 'L' {
        'l'
    } else if c == 'M' {
        'm'
    } else if c == 'N' {
        'n'
    } else if c == 'O' {
        'o'
    } else if c == 'P' {
        'p'
    } else if c == 'Q' {
        'q'
    } else if c == 'R' {
        'r'
    } else if c == 'S' {
        's'
    } else if c == 'T' {
        't'
    } else if c == 'U' {
        'u'
    } else if c == 'V' {
        'v'
    } else if c == 'W' {
        'w'
    } else if c == 'X' {
        'x'
    } else if c == 'Y' {
        'y'
    } else if c == 'Z' {
        'z'
    } else {
        c
    }
}

fn fold_char(c: char) -> (r: char)
    ensures
        r == spec_fold_char(c),
{
    if c == 'A' {
        'a'
    } else if c == 'B' {
        'b'
    } else if c == 'C' {
        'c'
    } else if c == 'D' {
        'd'
    } else if c == 'E' {
        'e'
    } else if c == 'F' {
        'f'
    } else if c == 'G' {
        'g'
    } else if c == 'H' {
        'h'
    } else if c == 'I' {
        'i'
    } else if c == 'J' {
        'j'
    } else if c == 'K' {
        'k'
    } else if c == 'L' {
        'l'
    } else if c == 'M' {
        'm'
    } else if c == 'N' {
        'n'
    } else if c == 'O' {
        'o'
    } else if c == 'P' {
        'p'
    } else if c == 'Q' {
        'q'
    } else if c == 'R' {
        'r'
    } else if c == 'S' {
        's'
    } else if c == 'T' {
        't'
    } else if c == 'U' {
        'u'
    } else if c == 'V' {
        'v'
    } else if c == 'W' {
        'w'
    } else if c == 'X' {
        'x'
    } else if c == 'Y' {
        'y'
    } else if c == 'Z' {
        'z'
    } else {
        c
    }
}

/// ASCII case folding of a text.
pub fn fold_chars(s: &Vec<char>) -> (r: Vec<char>)
    ensures
        r@ == s@.map_values(|c: char| spec_fold_char(c)),
{
    let mut out: Vec<char> = Vec::new();
    let mut i: usize = 0;
    while i < s.len()
        invariant
            i <= s@.len(),
            out@ == s@.take(i as int).map_values(|c: char| spec_fold_char(c)),
        decreases s@.len() - i,
    {
        out.push(fold_char(s[i]));
        proof {
            assert(out@ =~= s@.take(i as int + 1).map_values(|c: char| spec_fold_char(c)));
        }
        i = i + 1;
    }
    proof {
        assert(s@.take(s@.len() as int) =~= s@);
    }
    out
}

/// The text with its whitespace removed.
pub open spec fn spec_strip_ws(s: Seq<char>) -> Seq<char>
    decreases s.len(),
{
    if s.len() == 0 {
        seq![]
    } else if spec_is_ws(s[0]) {
        spec_strip_ws(s.skip(1))
    } else {
        seq![s[0]] + spec_strip_ws(s.skip(1))
    }
}

/// Removes the whitespace of a text.
pub fn strip_ws(s: &Vec<char>) -> (r: Vec<char>)
    ensures
        r@ == spec_strip_ws(s@),
        r@.len() <= s@.len(),
{
    let mut out: Vec<char> = Vec::new();
    let mut i: usize = 0;
    proof {
        assert(s@.skip(0) =~= s@);
    }
    while i < s.len()
        invariant
            i <= s@.len(),
            out@.len() <= i,
            spec_strip_ws(s@) == out@ + spec_strip_ws(s@.skip(i as int)),
        decreases s@.len() - i,
    {
        proof {
            assert(s@.skip(i as int)[0] == s@[i as int]);
            assert(s@.skip(i as int).skip(1) =~= s@.skip(i as int + 1));
        }
        let c = s[i];
        if c == ' ' || c == '\t' || c == '\n' || c == '\r' {
        } else {
            let ghost prev = out@;
            out.push(c);
            proof {
                assert(prev + (seq![c] + spec_strip_ws(s@.skip(i as int + 1))) =~= out@
                    + spec_strip_ws(s@.skip(i as int + 1)));
            }
        }
        i = i + 1;
    }
    proof {
        assert(s@.skip(s@.len() as int) =~= Seq::<char>::empty());
        assert(out@ + Seq::<char>::empty() =~= out@);
    }
    out
}

/// The adjacent character pairs of a text.
pub open spec fn spec_bigrams(s: Seq<char>) -> Seq<(char, char)>
    decreases s.len(),
{
    if s.len() < 2 {
        seq![]
    } else {
        seq![(s[0], s[1])] + spec_bigrams(s.skip(1))
    }
}

pub proof fn lemma_bigrams_len(s: Seq<char>)
    ensures
        spec_bigrams(s).len() == if s.len() < 2 {
            0int
        } else {
            s.len() - 1
        },
    decreases s.len(),
{
    if s.len() >= 2 {
        lemma_bigrams_len(s.skip(1));
    }
}

/// The adjacent character pairs of a text.
pub fn bigrams(s: &Vec<char>) -> (r: Vec<(char, char)>)
    ensures
        r@ == spec_bigrams(s@),
{
    let mut out: Vec<(char, char)> = Vec::new();
    if s.len() < 2 {
        return out;
    }
    let mut i: usize = 0;
    proof {
        assert(s@.skip(0) =~= s@);
    }
    while i < s.len() - 1
        invariant
            s@.len() >= 2,
            i <= s@.len() - 1,
            spec_bigrams(s@) == out@ + spec_bigrams(s@.skip(i as int)),
        decreases s@.len() - i,
    {
        proof {
            assert(s@.skip(i as int)[0] == s@[i as int]);
            assert(s@.skip(i as int)[1] == s@[i as int + 1]);
            assert(s@.skip(i as int).skip(1) =~= s@.skip(i as int + 1));
        }
        let ghost prev = out@;
        let pair = (s[i], s[i + 1]);
        out.push(pair);
        proof {
            assert(prev + (seq![pair] + spec_bigrams(s@.skip(i as int + 1))) =~= out@
                + spec_bigrams(s@.skip(i as int + 1)));
        }
        i = i + 1;
    }
    proof {
        assert(s@.skip(s@.len() - 1).len() == 1);
        assert(out@ + Seq::<(char, char)>::empty() =~= out@);
    }
    out
}

/// The index of the first occurrence of `x`, or -1.
pub open spec fn spec_first_idx(a: Seq<(char, char)>, x: (char, char)) -> int
    decreases a.len(),
{
    if a.len() == 0 {
        -1
    } else if a[0] == x {
        0
    } else {
        let r = spec_first_idx(a.skip(1), x);
        if r < 0 {
            -1
        } else {
            r + 1
        }
    }
}

pub proof fn lemma_first_idx_spec(a: Seq<(char, char)>, x: (char, char))
    ensures
        spec_first_idx(a, x) == -1 ==> forall|k: int| 0 <= k < a.len() ==> a[k] != x,
        spec_first_idx(a, x) >= 0 ==> 0 <= spec_first_idx(a, x) < a.len() && a[spec_first_idx(
            a,
            x,
        )] == x && forall|k: int| 0 <= k < spec_first_idx(a, x) ==> a[k] != x,
    decreases a.len(),
{
    if a.len() > 0 && a[0] != x {
        lemma_first_idx_spec(a.skip(1), x);
        assert forall|k: int| 1 <= k < a.len() implies a.skip(1)[k - 1] == a[k] by {}
    }
}

pub proof fn lemma_first_idx_at(a: Seq<(char, char)>, x: (char, char), i: int)
    requires
        0 <= i < a.len(),
        a[i] == x,
        forall|k: int| 0 <= k < i ==> a[k] != x,
    ensures
        spec_first_idx(a, x) == i,
    decreases a.len(),
{
    if i > 0 {
        assert(a.skip(1)[i - 1] == a[i]);
        assert forall|k: int| 0 <= k < i - 1 implies a.skip(1)[k] != x by {
            assert(a.skip(1)[k] == a[k + 1]);
        }
        lemma_first_idx_at(a.skip(1), x, i - 1);
    }
}

/// The number of shared bigrams: each pair of `b` consumes at most one equal
/// pair of `a`.
pub open spec fn spec_inter(a: Seq<(char, char)>, b: Seq<(char, char)>) -> nat
    decreases b.len(),
{
    if b.len() == 0 {
        0
    } else {
        let i = spec_first_idx(a, b[0]);
        if i >= 0 {
            1 + spec_inter(a.remove(i), b.skip(1))
        } else {
            spec_inter(a, b.skip(1))
        }
    }
}

pub proof fn lemma_inter_bounds(a: Seq<(char, char)>, b: Seq<(char, char)>)
    ensures
        spec_inter(a, b) <= a.len(),
        spec_inter(a, b) <= b.len(),
    decreases b.len(),
{
    if b.len() > 0 {
        let i = spec_first_idx(a, b[0]);
        if i >= 0 {
            lemma_first_idx_spec(a, b[0]);
            lemma_inter_bounds(a.remove(i), b.skip(1));
        } else {
            lemma_inter_bounds(a, b.skip(1));
        }
    }
}

/// Law: a text that shares no bigram with another scores nothing with it.
pub proof fn lemma_inter_none(a: Seq<(char, char)>, b: Seq<(char, char)>)
    requires
        forall|j: int| 0 <= j < b.len() ==> !a.contains(b[j]),
    ensures
        spec_inter(a, b) == 0,
    decreases b.len(),
{
    if b.len() > 0 {
        assert(!a.contains(b[0]));
        lemma_first_idx_spec(a, b[0]);
        if spec_first_idx(a, b[0]) >= 0 {
            assert(a[spec_first_idx(a, b[0])] == b[0]);
            assert(a.contains(b[0]));
        }
        assert forall|j: int| 0 <= j < b.skip(1).len() implies !a.contains(b.skip(1)[j]) by {
            assert(b.skip(1)[j] == b[j + 1]);
        }
        lemma_inter_none(a, b.skip(1));
    }
}

fn find_first(a: &Vec<(char, char)>, x: (char, char)) -> (r: Option<usize>)
    ensures
        match r {
            Some(i) => spec_first_idx(a@, x) == i && i < a@.len(),
            None => spec_first_idx(a@, x) == -1,
        },
{
    let mut i: usize = 0;
    while i < a.len()
        invariant
            i <= a@.len(),
            forall|k: int| 0 <= k < i ==> a@[k] != x,
        decreases a@.len() - i,
    {
        if a[i].0 == x.0 && a[i].1 == x.1 {
            proof {
                lemma_first_idx_at(a@, x, i as int);
            }
            return Some(i);
        }
        i = i + 1;
    }
    proof {
        lemma_first_idx_spec(a@, x);
        if spec_first_idx(a@, x) >= 0 {
            assert(a@[spec_first_idx(a@, x)] == x);
        }
    }
    None
}

/// Counts the shared bigrams of `a` and `b`.
pub fn inter_count(a: &Vec<(char, char)>, b: &Vec<(char, char)>) -> (r: usize)
    ensures
        r == spec_inter(a@, b@),
        r <= b@.len(),
{
    let mut work: Vec<(char, char)> = Vec::new();
    let mut c: usize = 0;
    while c < a.len()
        invariant
            c <= a@.len(),
            work@ == a@.take(c as int),
        decreases a@.len() - c,
    {
        work.push(a[c]);
        proof {
            assert(work@ =~= a@.take(c as int + 1));
        }
        c = c + 1;
    }
    proof {
        assert(a@.take(a@.len() as int) =~= a@);
    }
    let mut count: usize = 0;
    let mut i: usize = 0;
    proof {
        assert(b@.skip(0) =~= b@);
    }
    while i < b.len()
        invariant
            i <= b@.len(),
            count <= i,
            count + spec_inter(work@, b@.skip(i as int)) == spec_inter(a@, b@),
        decreases b@.len() - i,
    {
        proof {
            assert(b@.skip(i as int)[0] == b@[i as int]);
            assert(b@.skip(i as int).skip(1) =~= b@.skip(i as int + 1));
            lemma_inter_bounds(work@, b@.skip(i as int));
        }
        match find_first(&work, b[i]) {
            Some(j) => {
                work.remove(j);
                count = count + 1;
            },
            None => {},
        }
        i = i + 1;
    }
    proof {
        assert(b@.skip(b@.len() as int) =~= Seq::<(char, char)>::empty());
    }
    count
}

/// The Dice score of two texts, as the exact fraction `num / den`
/// (`den >= 1`): whitespace removed, 1 for equal or both-empty texts, 0 when
/// either has no bigram, else shared bigrams over total bigrams.
pub open spec fn spec_dice(a: Seq<char>, b: Seq<char>) -> (nat, nat) {
    let a2 = spec_strip_ws(a);
    let b2 = spec_strip_ws(b);
    if a2.len() == 0 && b2.len() == 0 {
        (1nat, 1nat)
    } else if a2.len() == 0 || b2.len() == 0 {
        (0nat, 1nat)
    } else if a2 == b2 {
        (1nat, 1nat)
    } else if a2.len() == 1 || b2.len() == 1 {
        (0nat, 1nat)
    } else {
        (2 * spec_inter(spec_bigrams(a2), spec_bigrams(b2)), (a2.len() + b2.len() - 2) as nat)
    }
}

/// Law: a text scores exactly 1 against itself.
pub proof fn lemma_dice_self(s: Seq<char>)
    ensures
        spec_dice(s, s) == (1nat, 1nat),
{
}

/// Law: an exact match is unbeatable — a text scores 1 against itself, and
/// no other text scores above 1 against the same query.
pub proof fn lemma_exact_match_unbeaten(q: Seq<char>, other: Seq<char>)
    ensures
        spec_dice(q, q) == (1nat, 1nat),
        spec_score_le(spec_dice(q, other), spec_dice(q, q)),
{
    lemma_dice_self(q);
    lemma_dice_at_most_one(q, other);
    lemma_dice_den_pos(q, other);
}

/// Law: no score exceeds 1.
pub proof fn lemma_dice_at_most_one(a: Seq<char>, b: Seq<char>)
    ensures
        spec_dice(a, b).0 <= spec_dice(a, b).1,
{
    let a2 = spec_strip_ws(a);
    let b2 = spec_strip_ws(b);
    if a2.len() > 0 && b2.len() > 0 && a2 != b2 && a2.len() > 1 && b2.len() > 1 {
        lemma_inter_bounds(spec_bigrams(a2), spec_bigrams(b2));
        lemma_bigrams_len(a2);
        lemma_bigrams_len(b2);
    }
}

/// The Dice score of two texts.
pub fn dice(a: &Vec<char>, b: &Vec<char>) -> (r: (u64, u64))
    requires
        a@.len() <= 0x7FFF_FFFF,
        b@.len() <= 0x7FFF_FFFF,
    ensures
        (r.0 as nat, r.1 as nat) == spec_dice(a@, b@),
        1 <= r.1 <= 0xFFFF_FFFF,
        r.0 <= 0xFFFF_FFFF,
{
    let a2 = strip_ws(a);
    let b2 = strip_ws(b);
    if a2.len() == 0 && b2.len() == 0 {
        return (1, 1);
    }
    if a2.len() == 0 || b2.len() == 0 {
        return (0, 1);
    }
    if crate::text::chars_eq(&a2, &b2) {
        return (1, 1);
    }
    if a2.len() == 1 || b2.len() == 1 {
        return (0, 1);
    }
    let ba = bigrams(&a2);
    let bb = bigrams(&b2);
    let inter = inter_count(&ba, &bb);
    proof {
        lemma_bigrams_len(b2@);
    }
    let num: u64 = 2 * (inter as u64);
    let den: u64 = (a2.len() as u64) + (b2.len() as u64) - 2;
    (num, den)
}

/// Strictly smaller, as fractions.
pub open spec fn spec_score_lt(x: (nat, nat), y: (nat, nat)) -> bool {
    x.0 * y.1 < y.0 * x.1
}

/// At most as large, as fractions.
pub open spec fn spec_score_le(x: (nat, nat), y: (nat, nat)) -> bool {
    x.0 * y.1 <= y.0 * x.1
}

/// With positive denominators, a fraction at most `y` is strictly below
/// anything strictly above `y`.
pub proof fn lemma_score_le_lt_trans(x: (nat, nat), y: (nat, nat), z: (nat, nat))
    by (nonlinear_arith)
    requires
        x.1 >= 1,
        y.1 >= 1,
        z.1 >= 1,
        spec_score_le(x, y),
        spec_score_lt(y, z),
    ensures
        spec_score_lt(x, z),
{
}

/// Every score's denominator is positive.
pub proof fn lemma_dice_den_pos(a: Seq<char>, b: Seq<char>)
    ensures
        spec_dice(a, b).1 >= 1,
{
}

/// The best-scoring candidate: the first one no other strictly beats, or
/// nothing when every candidate scores zero against the query (a zero score
/// means "not found").
pub fn fuzzy_best(query: &Vec<char>, cands: &Vec<Vec<char>>) -> (r: Option<usize>)
    requires
        query@.len() <= 0x7FFF_FFFF,
        forall|j: int| 0 <= j < cands@.len() ==> #[trigger] cands@[j]@.len() <= 0x7FFF_FFFF,
    ensures
        match r {
            Some(i) => 0 <= i < cands@.len() && spec_dice(query@, cands@[i as int]@).0 > 0
                && (forall|j: int|
                0 <= j < cands@.len() ==> spec_score_le(
                    #[trigger] spec_dice(query@, cands@[j]@),
                    spec_dice(query@, cands@[i as int]@),
                )) && (forall|j: int|
                0 <= j < i ==> spec_score_lt(
                    #[trigger] spec_dice(query@, cands@[j]@),
                    spec_dice(query@, cands@[i as int]@),
                )),
            None => forall|j: int|
                0 <= j < cands@.len() ==> #[trigger] spec_dice(query@, cands@[j]@).0 == 0,
        },
{
    let mut best: Option<(usize, u64, u64)> = None;
    let mut j: usize = 0;
    while j < cands.len()
        invariant
            j <= cands@.len(),
            query@.len() <= 0x7FFF_FFFF,
            forall|k: int| 0 <= k < cands@.len() ==> #[trigger] cands@[k]@.len() <= 0x7FFF_FFFF,
            match best {
                Some((i, n, d)) => 0 <= i < j && (n as nat, d as nat) == spec_dice(
                    query@,
                    cands@[i as int]@,
                ) && 1 <= d <= 0xFFFF_FFFF && n <= 0xFFFF_FFFF && (forall|k: int|
                    0 <= k < j ==> spec_score_le(
                        #[trigger] spec_dice(query@, cands@[k]@),
                        spec_dice(query@, cands@[i as int]@),
                    )) && (forall|k: int|
                    0 <= k < i ==> spec_score_lt(
                        #[trigger] spec_dice(query@, cands@[k]@),
                        spec_dice(query@, cands@[i as int]@),
                    )),
                None => j == 0,
            },
        decreases cands@.len() - j,
    {
        let (n, d) = dice(query, &cands[j]);
        let ghost sj = spec_dice(query@, cands@[j as int]@);
        match best {
            None => {
                best = Some((j, n, d));
            },
            Some((bi, bn, bd)) => {
                let ghost sb = spec_dice(query@, cands@[bi as int]@);
                proof {
                    assert((n as int) * (bd as int) <= 0xFFFF_FFFF * 0xFFFF_FFFF)
                        by (nonlinear_arith)
                        requires
                            n <= 0xFFFF_FFFFu64,
                            bd <= 0xFFFF_FFFFu64,
                    {
                    }
                    assert((bn as int) * (d as int) <= 0xFFFF_FFFF * 0xFFFF_FFFF)
                        by (nonlinear_arith)
                        requires
                            bn <= 0xFFFF_FFFFu64,
                            d <= 0xFFFF_FFFFu64,
                    {
                    }
                }
                if (n as u128) * (bd as u128) > (bn as u128) * (d as u128) {
                    proof {
                        assert(spec_score_lt(sb, sj));
                        assert forall|k: int| 0 <= k < j implies spec_score_lt(
                            #[trigger] spec_dice(query@, cands@[k]@),
                            sj,
                        ) by {
                            lemma_dice_den_pos(query@, cands@[k]@);
                            lemma_score_le_lt_trans(spec_dice(query@, cands@[k]@), sb, sj);
                        }
                        assert forall|k: int| 0 <= k < j + 1 implies spec_score_le(
                            #[trigger] spec_dice(query@, cands@[k]@),
                            sj,
                        ) by {
                            if k < j {
                                assert(spec_score_lt(spec_dice(query@, cands@[k]@), sj));
                            }
                        }
                    }
                    best = Some((j, n, d));
                } else {
                    proof {
                        assert(spec_score_le(sj, sb));
                    }
                }
            },
        }
        j = j + 1;
    }
    match best {
        None => None,
        Some((bi, bn, bd)) => {
            if bn == 0 {
                proof {
                    let b = spec_dice(query@, cands@[bi as int]@);
                    assert forall|k: int| 0 <= k < cands@.len() implies #[trigger] spec_dice(
                        query@,
                        cands@[k]@,
                    ).0 == 0 by {
                        let s = spec_dice(query@, cands@[k]@);
                        assert(spec_score_le(s, b));
                        assert(s.0 * b.1 <= b.0 * s.1);
                        assert(b.0 == 0);
                        assert(b.0 * s.1 == 0) by (nonlinear_arith)
                            requires
                                b.0 == 0nat,
                        {
                        }
                        assert(s.0 == 0) by (nonlinear_arith)
                            requires
                                s.0 * b.1 <= 0,
                                b.1 >= 1nat,
                        {
                        }
                    }
                }
                None
            } else {
                Some(bi)
            }
        },
    }
}

} // verus!
