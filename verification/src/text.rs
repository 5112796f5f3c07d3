//! Plain-text building blocks: decimal rendering and string equality.
use vstd::prelude::*;

verus! {

/// The character of a decimal digit.
pub open spec fn digit(d: nat) -> char {
    ('0' as u32 + d) as char
}

/// The decimal form of a number, with no sign and no leading zero.
pub open spec fn dec(n: nat) -> Seq<char>
    decreases n,
{
    if n < 10 {
        seq![digit(n)]
    } else {
        dec(n / 10).push(digit(n % 10))
    }
}

/// The decimal form of a signed number.
pub open spec fn dec_signed(n: int) -> Seq<char> {
    if n < 0 {
        seq!['-'] + dec((-n) as nat)
    } else {
        dec(n as nat)
    }
}

fn push_digit(out: &mut String, d: u128)
    requires
        d < 10,
    ensures
        final(out)@ == old(out)@.push(digit(d as nat)),
{
    let piece = if d == 0 {
        "0"
    } else if d == 1 {
        "1"
    } else if d == 2 {
        "2"
    } else if d == 3 {
        "3"
    } else if d == 4 {
        "4"
    } else if d == 5 {
        "5"
    } else if d == 6 {
        "6"
    } else if d == 7 {
        "7"
    } else if d == 8 {
        "8"
    } else {
        "9"
    };
    proof {
        reveal_strlit("0");
        reveal_strlit("1");
        reveal_strlit("2");
        reveal_strlit("3");
        reveal_strlit("4");
        reveal_strlit("5");
        reveal_strlit("6");
        reveal_strlit("7");
        reveal_strlit("8");
        reveal_strlit("9");
    }
    out.append(piece);
    assert(out@ =~= old(out)@.push(digit(d as nat)));
}

/// Append the decimal form of `n`.
pub fn push_dec(out: &mut String, n: u128)
    ensures
        final(out)@ == old(out)@ + dec(n as nat),
    decreases n,
{
    if n >= 10 {
        push_dec(out, n / 10);
    }
    push_digit(out, n % 10);
    assert(out@ =~= old(out)@ + dec(n as nat));
}

/// Append the decimal form of `n`, with a leading minus where it is negative.
pub fn push_dec_signed(out: &mut String, n: i32)
    ensures
        final(out)@ == old(out)@ + dec_signed(n as int),
{
    if n < 0 {
        out.append("-");
        proof {
            reveal_strlit("-");
        }
        let magnitude: i64 = -(n as i64);
        push_dec(out, magnitude as u128);
        assert("-"@ =~= seq!['-']);
        assert(out@ =~= old(out)@ + dec_signed(n as int));
    } else {
        push_dec(out, n as u128);
    }
}

/// Whether two texts are the same.
pub fn same_text(a: &str, b: &str) -> (r: bool)
    ensures
        r == (a@ == b@),
{
    a.to_owned() == b.to_owned()
}

/// A decimal form holds digits only, so never a dash.
pub proof fn lemma_dec_has_no_dash(n: nat)
    ensures
        dec(n).len() > 0,
        forall|i: int| 0 <= i < dec(n).len() ==> dec(n)[i] != '-',
    decreases n,
{
    if n >= 10 {
        lemma_dec_has_no_dash(n / 10);
    }
}

/// Two numbers with one decimal form are the same number.
pub proof fn lemma_dec_injective(n: nat, m: nat)
    requires
        dec(n) == dec(m),
    ensures
        n == m,
    decreases n,
{
    lemma_dec_has_no_dash(n / 10);
    lemma_dec_has_no_dash(m / 10);
    assert(dec(n).last() == digit(n % 10));
    assert(dec(m).last() == digit(m % 10));
    if n >= 10 && m >= 10 {
        assert(dec(n).drop_last() =~= dec(n / 10));
        assert(dec(m).drop_last() =~= dec(m / 10));
        lemma_dec_injective(n / 10, m / 10);
    }
}

/// Text up to its first dash determines both sides of that dash.
pub proof fn lemma_split_at_dash(a: Seq<char>, b: Seq<char>, c: Seq<char>, d: Seq<char>)
    requires
        forall|i: int| 0 <= i < a.len() ==> a[i] != '-',
        forall|i: int| 0 <= i < c.len() ==> c[i] != '-',
        a + seq!['-'] + b == c + seq!['-'] + d,
    ensures
        a == c,
        b == d,
{
    let left = a + seq!['-'] + b;
    let right = c + seq!['-'] + d;
    assert(left[a.len() as int] == '-');
    assert(right[c.len() as int] == '-');
    if a.len() < c.len() {
        assert(right[a.len() as int] == c[a.len() as int]);
        assert(false);
    }
    if c.len() < a.len() {
        assert(left[c.len() as int] == a[c.len() as int]);
        assert(false);
    }
    assert(a =~= left.subrange(0, a.len() as int));
    assert(c =~= right.subrange(0, a.len() as int));
    assert(b =~= left.subrange(a.len() as int + 1, left.len() as int));
    assert(d =~= right.subrange(a.len() as int + 1, left.len() as int));
}

/// A number is written in decimal: one of a single digit as that digit, and any other with its last
/// digit behind the rest; a negative one with a dash before its size.
pub proof fn law_numbers_are_written_in_decimal(n: nat, d: nat)
    requires
        d < 10,
    ensures
        dec(d).len() == 1,
        dec(d)[0] as u32 == '0' as u32 + d,
        n > 0 ==> dec(10 * n + d) == dec(n) + dec(d),
        n > 0 ==> dec_signed(-(n as int)) == seq!['-'] + dec(n),
        dec_signed(n as int) == dec(n),
{
    if n > 0 {
        assert((10 * n + d) / 10 == n);
        assert((10 * n + d) % 10 == d);
        assert(dec(n).push(digit(d)) =~= dec(n) + dec(d));
    }
}

} // verus!
