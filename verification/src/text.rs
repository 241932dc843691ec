//! Text helpers: decimal rendering of integers and substring replacement.
use vstd::prelude::*;

verus! {

/// The character of a decimal digit.
pub open spec fn digit_char(d: nat) -> char {
    if d == 0 { '0' }
    else if d == 1 { '1' }
    else if d == 2 { '2' }
    else if d == 3 { '3' }
    else if d == 4 { '4' }
    else if d == 5 { '5' }
    else if d == 6 { '6' }
    else if d == 7 { '7' }
    else if d == 8 { '8' }
    else { '9' }
}

/// The decimal rendering of a natural number, without sign or leading zeros.
pub open spec fn decimal(n: nat) -> Seq<char>
    decreases n,
{
    if n < 10 {
        seq![digit_char(n)]
    } else {
        decimal(n / 10).push(digit_char(n % 10))
    }
}

/// `s` with every occurrence of `pat` replaced by `with`, scanning left to
/// right and never reusing characters of an earlier match.
pub open spec fn replaced(s: Seq<char>, pat: Seq<char>, with: Seq<char>) -> Seq<char>
    decreases s.len(),
{
    if s.len() == 0 {
        seq![]
    } else if 0 < pat.len() <= s.len() && s.subrange(0, pat.len() as int) == pat {
        with + replaced(s.subrange(pat.len() as int, s.len() as int), pat, with)
    } else {
        seq![s[0]] + replaced(s.subrange(1, s.len() as int), pat, with)
    }
}

/// The one-character text of a decimal digit.
fn digit_text(d: usize) -> (r: &'static str)
    requires
        d < 10,
    ensures
        r@ == seq![digit_char(d as nat)],
{
    proof {
        reveal_strlit("0");
        reveal_strlit("1");
        reveal_strlit("2");
        reveal_strlit("3");
        reveal_strlit("4");
        reveal_strlit("5");
        reveal_strlit("6");
        reveal_strlit("7");
        reveal_strlit("8");
        reveal_strlit("9");
    }
    if d == 0 {
        "0"
    } else if d == 1 {
        "1"
    } else if d == 2 {
        "2"
    } else if d == 3 {
        "3"
    } else if d == 4 {
        "4"
    } else if d == 5 {
        "5"
    } else if d == 6 {
        "6"
    } else if d == 7 {
        "7"
    } else if d == 8 {
        "8"
    } else {
        "9"
    }
}

/// Renders `n` in decimal: the digits of the number, with no sign,
/// padding or leading zeros.
pub(crate) fn usize_to_decimal(n: usize) -> (r: String)
    ensures
        r@ == decimal(n as nat),
    decreases n,
{
    if n < 10 {
        owned(digit_text(n))
    } else {
        let mut s = usize_to_decimal(n / 10);
        s.append(digit_text(n % 10));
        proof {
            assert(decimal(n as nat) == decimal((n / 10) as nat).push(digit_char((n % 10) as nat)));
            assert(s@ =~= decimal(n as nat));
        }
        s
    }
}

/// Renders `n` in decimal.
pub(crate) fn u16_to_decimal(n: u16) -> (r: String)
    ensures
        r@ == decimal(n as nat),
{
    usize_to_decimal(n as usize)
}

/// Replaces all matches of a non-empty pattern in `s`, left to right and
/// without overlap, by `with`.
pub(crate) fn replace_all(s: &str, pat: &str, with: &str) -> (r: String)
    requires
        pat@.len() > 0,
    ensures
        r@ == replaced(s@, pat@, with@),
{
    let n = s.unicode_len();
    let m = pat.unicode_len();
    let mut out = String::new();
    let mut i: usize = 0;
    proof {
        assert(s@.subrange(0, n as int) =~= s@);
    }
    while i < n
        invariant
            n == s@.len(),
            m == pat@.len(),
            m > 0,
            i <= n,
            out@ + replaced(s@.subrange(i as int, n as int), pat@, with@) == replaced(
                s@,
                pat@,
                with@,
            ),
        decreases n - i,
    {
        let ghost rest = s@.subrange(i as int, n as int);
        if m <= n - i && same_text(s.substring_char(i, i + m), pat) {
            proof {
                assert(rest.subrange(0, m as int) =~= s@.subrange(i as int, (i + m) as int));
                assert(rest.subrange(m as int, rest.len() as int) =~= s@.subrange(
                    (i + m) as int,
                    n as int,
                ));
                assert(out@ + with@ + replaced(s@.subrange((i + m) as int, n as int), pat@, with@)
                    =~= out@ + replaced(rest, pat@, with@));
            }
            out.append(with);
            i = i + m;
        } else {
            let c = s.substring_char(i, i + 1);
            proof {
                assert(rest.len() > 0);
                if 0 < pat@.len() <= rest.len() {
                    assert(rest.subrange(0, m as int) =~= s@.subrange(i as int, (i + m) as int));
                }
                assert(c@ =~= seq![rest[0]]);
                assert(rest.subrange(1, rest.len() as int) =~= s@.subrange(
                    (i + 1) as int,
                    n as int,
                ));
                assert(out@ + c@ + replaced(s@.subrange((i + 1) as int, n as int), pat@, with@)
                    =~= out@ + replaced(rest, pat@, with@));
            }
            out.append(c);
            i = i + 1;
        }
    }
    proof {
        assert(s@.subrange(n as int, n as int) =~= Seq::<char>::empty());
        assert(out@ + replaced(Seq::<char>::empty(), pat@, with@) =~= out@);
    }
    out
}

/// A copy of `s` as an owned string.
pub(crate) fn owned(s: &str) -> (r: String)
    ensures
        r@ == s@,
{
    s.to_owned()
}

/// Whether two strings hold the same characters.
pub(crate) fn same_text(a: &str, b: &str) -> (r: bool)
    ensures
        r == (a@ == b@),
{
    let x = a.to_owned();
    let y = b.to_owned();
    x == y
}

/// `a` followed by `b`.
pub(crate) fn joined(a: &str, b: &str) -> (r: String)
    ensures
        r@ == a@ + b@,
{
    let x = a.to_owned();
    x.concat(b)
}

} // verus!
