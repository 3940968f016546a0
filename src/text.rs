use vstd::prelude::*;

verus! {

/// An ASCII letter or digit.
pub open spec fn is_alnum(c: char) -> bool {
    ('0' <= c && c <= '9') || ('a' <= c && c <= 'z') || ('A' <= c && c <= 'Z')
}

/// An ASCII decimal digit.
pub open spec fn is_digit(c: char) -> bool {
    '0' <= c && c <= '9'
}

/// Every character of `s` is an ASCII letter or digit.
pub open spec fn all_alnum(s: Seq<char>) -> bool {
    forall|i: int| 0 <= i < s.len() ==> is_alnum(#[trigger] s[i])
}

/// Every character of `s` is a decimal digit.
pub open spec fn all_digits(s: Seq<char>) -> bool {
    forall|i: int| 0 <= i < s.len() ==> is_digit(#[trigger] s[i])
}

/// The digit character for `d`, where `d < 10`.
pub open spec fn digit_char(d: nat) -> char {
    if d == 0 {
        '0'
    } else if d == 1 {
        '1'
    } else if d == 2 {
        '2'
    } else if d == 3 {
        '3'
    } else if d == 4 {
        '4'
    } else if d == 5 {
        '5'
    } else if d == 6 {
        '6'
    } else if d == 7 {
        '7'
    } else if d == 8 {
        '8'
    } else {
        '9'
    }
}

/// The value of a digit character.
pub open spec fn digit_value(c: char) -> nat {
    (c as u32 - '0' as u32) as nat
}

/// The shortest decimal spelling of `n`.
pub open spec fn decimal(n: nat) -> Seq<char>
    decreases n,
{
    if n < 10 {
        seq![digit_char(n)]
    } else {
        decimal(n / 10).push(digit_char(n % 10))
    }
}

/// The number that a string of digits spells.
pub open spec fn decimal_value(s: Seq<char>) -> nat
    decreases s.len(),
{
    if s.len() == 0 {
        0
    } else {
        decimal_value(s.drop_last()) * 10 + digit_value(s.last())
    }
}

proof fn lemma_digit_char(d: nat)
    requires
        d < 10,
    ensures
        is_digit(digit_char(d)),
        digit_value(digit_char(d)) == d,
{
}

/// A decimal spelling is a non-empty string of digits that spells its number.
pub proof fn lemma_decimal(n: nat)
    ensures
        decimal(n).len() >= 1,
        all_digits(decimal(n)),
        decimal_value(decimal(n)) == n,
    decreases n,
{
    if n < 10 {
        lemma_digit_char(n);
        assert(decimal(n).drop_last() =~= Seq::<char>::empty());
        assert(decimal_value(decimal(n)) == decimal_value(Seq::<char>::empty()) * 10 + n);
    } else {
        lemma_decimal(n / 10);
        lemma_digit_char(n % 10);
        assert(decimal(n).drop_last() =~= decimal(n / 10));
        assert(decimal(n).last() == digit_char(n % 10));
        assert(n == (n / 10) * 10 + n % 10) by (nonlinear_arith);
        assert(decimal_value(decimal(n)) == decimal_value(decimal(n / 10)) * 10 + n % 10);
    }
}

/// Two strings that split one text into a run of characters with property `p`
/// followed by a rest that does not begin with such a character split it alike.
pub proof fn lemma_split_run(p: spec_fn(char) -> bool, a1: Seq<char>, b1: Seq<char>, a2: Seq<char>, b2: Seq<char>)
    requires
        a1 + b1 == a2 + b2,
        forall|i: int| 0 <= i < a1.len() ==> p(#[trigger] a1[i]),
        forall|i: int| 0 <= i < a2.len() ==> p(#[trigger] a2[i]),
        b1.len() > 0 ==> !p(b1[0]),
        b2.len() > 0 ==> !p(b2[0]),
    ensures
        a1 == a2,
        b1 == b2,
{
    let s = a1 + b1;
    if a1.len() < a2.len() {
        assert(s[a1.len() as int] == a2[a1.len() as int]);
        if b1.len() > 0 {
            assert(s[a1.len() as int] == b1[0]);
        }
        assert(false);
    } else if a2.len() < a1.len() {
        assert((a2 + b2)[a2.len() as int] == a1[a2.len() as int]);
        if b2.len() > 0 {
            assert((a2 + b2)[a2.len() as int] == b2[0]);
        }
        assert(false);
    }
    assert(a1 =~= s.subrange(0, a1.len() as int));
    assert(a2 =~= (a2 + b2).subrange(0, a2.len() as int));
    assert(b1 =~= s.subrange(a1.len() as int, s.len() as int));
    assert(b2 =~= (a2 + b2).subrange(a2.len() as int, s.len() as int));
}

/// Relies on `String::push`, which appends one character to the string.
pub assume_specification[ String::push ](s: &mut String, ch: char)
    ensures
        final(s)@ == old(s)@.push(ch),
;

/// The characters of a string slice.
pub fn chars_of(s: &str) -> (r: Vec<char>)
    ensures
        r@ == s@,
{
    let n = s.unicode_len();
    let mut r: Vec<char> = Vec::new();
    let mut i: usize = 0;
    while i < n
        invariant
            n == s@.len(),
            i <= n,
            r@ == s@.subrange(0, i as int),
        decreases n - i,
    {
        r.push(s.get_char(i));
        i = i + 1;
        assert(r@ =~= s@.subrange(0, i as int));
    }
    assert(r@ =~= s@);
    r
}

/// A string made of the given characters.
pub fn string_of(v: &Vec<char>) -> (r: String)
    ensures
        r@ == v@,
{
    let mut r = String::new();
    let mut i: usize = 0;
    while i < v.len()
        invariant
            i <= v@.len(),
            r@ == v@.subrange(0, i as int),
        decreases v@.len() - i,
    {
        r.push(v[i]);
        i = i + 1;
        assert(r@ =~= v@.subrange(0, i as int));
    }
    assert(r@ =~= v@);
    r
}

fn digit_to_char(d: u64) -> (c: char)
    requires
        d < 10,
    ensures
        c == digit_char(d as nat),
{
    if d == 0 {
        '0'
    } else if d == 1 {
        '1'
    } else if d == 2 {
        '2'
    } else if d == 3 {
        '3'
    } else if d == 4 {
        '4'
    } else if d == 5 {
        '5'
    } else if d == 6 {
        '6'
    } else if d == 7 {
        '7'
    } else if d == 8 {
        '8'
    } else {
        '9'
    }
}

/// Appends the decimal spelling of `n` to `out`.
pub fn push_decimal(out: &mut Vec<char>, n: u64)
    ensures
        final(out)@ == old(out)@ + decimal(n as nat),
    decreases n,
{
    if n >= 10 {
        push_decimal(out, n / 10);
    }
    out.push(digit_to_char(n % 10));
    proof {
        if n < 10 {
            assert(decimal(n as nat) == seq![digit_char(n as nat)]);
        }
    }
    assert(final(out)@ =~= old(out)@ + decimal(n as nat));
}

fn char_is_digit(c: char) -> (r: bool)
    ensures
        r == is_digit(c),
{
    '0' <= c && c <= '9'
}

/// Tells whether `c` is an ASCII letter or digit.
pub fn char_is_alnum(c: char) -> (r: bool)
    ensures
        r == is_alnum(c),
{
    ('0' <= c && c <= '9') || ('a' <= c && c <= 'z') || ('A' <= c && c <= 'Z')
}

proof fn lemma_value_prefix(s: Seq<char>, j: int)
    requires
        all_digits(s),
        0 <= j <= s.len(),
    ensures
        decimal_value(s.subrange(0, j)) <= decimal_value(s),
    decreases s.len(),
{
    if j < s.len() {
        let t = s.drop_last();
        assert(t.subrange(0, j) =~= s.subrange(0, j));
        lemma_value_prefix(t, j);
    } else {
        assert(s.subrange(0, j) =~= s);
    }
}

/// Reads the run of digits that starts at `start` as a `u64`. The result is
/// the number and the end of the run; `None` when no digit stands at `start`
/// or the number does not fit.
pub fn parse_decimal(s: &Vec<char>, start: usize) -> (r: Option<(u64, usize)>)
    requires
        start <= s@.len(),
    ensures
        r matches Some((v, e)) ==> {
            &&& start < e <= s@.len()
            &&& all_digits(s@.subrange(start as int, e as int))
            &&& (e == s@.len() || !is_digit(s@[e as int]))
            &&& v == decimal_value(s@.subrange(start as int, e as int))
        },
        r is None ==> forall|e: int|
            #![trigger s@.subrange(start as int, e)]
            start < e <= s@.len() && all_digits(s@.subrange(start as int, e)) && (e == s@.len()
                || !is_digit(s@[e])) ==> decimal_value(s@.subrange(start as int, e)) > u64::MAX,
{
    let mut i: usize = start;
    let mut v: u64 = 0;
    assert(s@.subrange(start as int, start as int) =~= Seq::<char>::empty());
    while i < s.len() && char_is_digit(s[i])
        invariant
            start <= i <= s@.len(),
            all_digits(s@.subrange(start as int, i as int)),
            v == decimal_value(s@.subrange(start as int, i as int)),
        decreases s@.len() - i,
    {
        let d: u64 = (s[i] as u32 - '0' as u32) as u64;
        let next: u128 = v as u128 * 10 + d as u128;
        let ghost run = s@.subrange(start as int, i + 1);
        assert(run.drop_last() =~= s@.subrange(start as int, i as int));
        assert(all_digits(run));
        if next > u64::MAX as u128 {
            proof {
                assert forall|e: int|
                    #![trigger s@.subrange(start as int, e)]
                    start < e <= s@.len() && all_digits(s@.subrange(start as int, e)) && (e
                        == s@.len() || !is_digit(s@[e])) implies decimal_value(
                    s@.subrange(start as int, e),
                ) > u64::MAX by {
                    if e <= i {
                        assert(run[e - start] == s@[e]);
                    }
                    assert(s@.subrange(start as int, e).subrange(0, i + 1 - start) =~= run);
                    lemma_value_prefix(s@.subrange(start as int, e), i + 1 - start);
                }
            }
            return None;
        }
        v = next as u64;
        i = i + 1;
    }
    if i == start {
        proof {
            assert forall|e: int|
                #![trigger s@.subrange(start as int, e)]
                start < e <= s@.len() && all_digits(s@.subrange(start as int, e)) && (e
                    == s@.len() || !is_digit(s@[e])) implies decimal_value(
                s@.subrange(start as int, e),
            ) > u64::MAX by {
                assert(s@.subrange(start as int, e)[0] == s@[start as int]);
            }
        }
        None
    } else {
        Some((v, i))
    }
}

/// The end of the run of ASCII letters and digits that starts at `start`.
pub fn alnum_run_end(s: &Vec<char>, start: usize) -> (e: usize)
    requires
        start <= s@.len(),
    ensures
        start <= e <= s@.len(),
        all_alnum(s@.subrange(start as int, e as int)),
        e == s@.len() || !is_alnum(s@[e as int]),
{
    let mut i: usize = start;
    while i < s.len() && char_is_alnum(s[i])
        invariant
            start <= i <= s@.len(),
            all_alnum(s@.subrange(start as int, i as int)),
        decreases s@.len() - i,
    {
        i = i + 1;
    }
    i
}

/// Tells whether `lit` stands in `s` at position `pos`.
pub fn has_at(s: &Vec<char>, pos: usize, lit: &Vec<char>) -> (r: bool)
    ensures
        r == (pos + lit@.len() <= s@.len() && s@.subrange(pos as int, pos + lit@.len()) == lit@),
{
    if lit.len() > s.len() || pos > s.len() - lit.len() {
        return false;
    }
    let mut i: usize = 0;
    while i < lit.len()
        invariant
            i <= lit@.len(),
            pos + lit@.len() <= s@.len(),
            s@.len() <= usize::MAX,
            forall|j: int| 0 <= j < i ==> s@[pos + j] == lit@[j],
        decreases lit@.len() - i,
    {
        if s[pos + i] != lit[i] {
            assert(s@.subrange(pos as int, pos + lit@.len())[i as int] == s@[pos + i]);
            return false;
        }
        i = i + 1;
    }
    assert(s@.subrange(pos as int, pos + lit@.len()) =~= lit@);
    true
}

/// The characters of `s` from `from` up to `to`.
pub fn chars_between(s: &Vec<char>, from: usize, to: usize) -> (r: Vec<char>)
    requires
        from <= to <= s@.len(),
    ensures
        r@ == s@.subrange(from as int, to as int),
{
    let mut r: Vec<char> = Vec::new();
    let mut i: usize = from;
    while i < to
        invariant
            from <= i <= to <= s@.len(),
            r@ == s@.subrange(from as int, i as int),
        decreases to - i,
    {
        r.push(s[i]);
        i = i + 1;
        assert(r@ =~= s@.subrange(from as int, i as int));
    }
    r
}

/// Tells whether two character sequences are equal.
pub fn same_chars(a: &Vec<char>, b: &Vec<char>) -> (r: bool)
    ensures
        r == (a@ == b@),
{
    if a.len() != b.len() {
        return false;
    }
    let r = has_at(a, 0, b);
    assert(a@.subrange(0, b@.len() as int) =~= a@);
    r
}

} // verus!
