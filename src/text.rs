use vstd::prelude::*;

verus! {

/// The ASCII digit for a value in 0..10.
pub open spec fn digit_char(d: nat) -> char {
    if d == 0 {
        '0'
    } else if d == 1 {
        '1'
    } else if d == 2 {
        '2'
    } else if d == 3 {
        '3'
    } else if d == 4 {
        '4'
    } else if d == 5 {
        '5'
    } else if d == 6 {
        '6'
    } else if d == 7 {
        '7'
    } else if d == 8 {
        '8'
    } else {
        '9'
    }
}

/// The decimal digits of a natural number, most significant first, without
/// leading zeros (zero is the single digit `0`).
pub open spec fn nat_digits(n: nat) -> Seq<char>
    decreases n,
{
    if n < 10 {
        seq![digit_char(n)]
    } else {
        nat_digits(n / 10).push(digit_char(n % 10))
    }
}

/// The decimal text of an integer, with a leading `-` when it is negative.
pub open spec fn decimal(n: int) -> Seq<char> {
    if n < 0 {
        seq!['-'] + nat_digits((-n) as nat)
    } else {
        nat_digits(n as nat)
    }
}

fn digit_str(d: u128) -> (r: &'static str)
    requires
        d < 10,
    ensures
        r@ == seq![digit_char(d as nat)],
{
    proof {
        reveal_strlit("0");
        reveal_strlit("1");
        reveal_strlit("2");
        reveal_strlit("3");
        reveal_strlit("4");
        reveal_strlit("5");
        reveal_strlit("6");
        reveal_strlit("7");
        reveal_strlit("8");
        reveal_strlit("9");
    }
    if d == 0 {
        "0"
    } else if d == 1 {
        "1"
    } else if d == 2 {
        "2"
    } else if d == 3 {
        "3"
    } else if d == 4 {
        "4"
    } else if d == 5 {
        "5"
    } else if d == 6 {
        "6"
    } else if d == 7 {
        "7"
    } else if d == 8 {
        "8"
    } else {
        "9"
    }
}

fn push_nat(s: &mut String, n: u128)
    ensures
        final(s)@ == old(s)@ + nat_digits(n as nat),
    decreases n,
{
    if n >= 10 {
        push_nat(s, n / 10);
    }
    s.append(digit_str(n % 10));
    proof {
        assert(s@ =~= old(s)@ + nat_digits(n as nat));
    }
}

/// Appends the decimal text of `n` to `s`.
pub fn push_decimal(s: &mut String, n: i128)
    requires
        n > i128::MIN,
    ensures
        final(s)@ == old(s)@ + decimal(n as int),
{
    if n < 0 {
        s.append("-");
        proof {
            reveal_strlit("-");
        }
        let m: u128 = (0 - n) as u128;
        push_nat(s, m);
        assert(s@ =~= old(s)@ + decimal(n as int));
    } else {
        push_nat(s, n as u128);
    }
}

/// Whether `lit` stands in `s` at position `pos`.
pub fn literal_at(s: &str, pos: usize, lit: &str) -> (r: bool)
    requires
        pos <= s@.len(),
    ensures
        r == (pos + lit@.len() <= s@.len() && s@.subrange(pos as int, pos + lit@.len()) == lit@),
{
    let n = s.unicode_len();
    let m = lit.unicode_len();
    if m > n - pos {
        return false;
    }
    let mut i: usize = 0;
    while i < m
        invariant
            n == s@.len(),
            m == lit@.len(),
            pos + m <= n,
            0 <= i <= m,
            forall|k: int| 0 <= k < i ==> s@[pos + k] == lit@[k],
        decreases m - i,
    {
        if s.get_char(pos + i) != lit.get_char(i) {
            assert(s@.subrange(pos as int, pos + m)[i as int] != lit@[i as int]);
            return false;
        }
        i += 1;
    }
    assert(s@.subrange(pos as int, pos + m) =~= lit@);
    true
}

/// Whether two strings hold the same characters.
pub fn str_eq(a: &str, b: &str) -> (r: bool)
    ensures
        r == (a@ == b@),
{
    if a.unicode_len() != b.unicode_len() {
        return false;
    }
    let r = literal_at(a, 0, b);
    assert(a@.subrange(0, b@.len() as int) =~= a@);
    r
}

/// An owned copy of a string slice.
pub fn owned(s: &str) -> (r: String)
    ensures
        r@ == s@,
{
    s.to_owned()
}

} // verus!
