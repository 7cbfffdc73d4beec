use vstd::prelude::*;
use vstd::string::StrSliceExecFns;

verus! {

/// What follows an optional leading `+`.
pub open spec fn decimal_digits(s: Seq<char>) -> Seq<char> {
    if s.len() > 0 && s[0] == '+' {
        s.subrange(1, s.len() as int)
    } else {
        s
    }
}

/// An optional `+` followed by one or more ASCII digits.
pub open spec fn is_decimal(s: Seq<char>) -> bool {
    let d = decimal_digits(s);
    d.len() > 0 && forall|i: int| 0 <= i < d.len() ==> '0' <= #[trigger] d[i] && d[i] <= '9'
}

/// The number that a run of ASCII digits denotes in base ten.
pub open spec fn decimal_value(d: Seq<char>) -> nat
    decreases d.len(),
{
    if d.len() == 0 {
        0
    } else {
        decimal_value(d.drop_last()) * 10 + (d.last() as nat - '0' as nat) as nat
    }
}

/// Extending a run of digits never makes its value smaller.
pub proof fn lemma_prefix_value_le(d: Seq<char>, k: int)
    requires
        0 <= k <= d.len(),
        forall|i: int| 0 <= i < d.len() ==> '0' <= #[trigger] d[i] && d[i] <= '9',
    ensures
        decimal_value(d.subrange(0, k)) <= decimal_value(d),
    decreases d.len(),
{
    if k < d.len() {
        let p = d.drop_last();
        assert(d.subrange(0, k) =~= p.subrange(0, k));
        lemma_prefix_value_le(p, k);
    } else {
        assert(d.subrange(0, k) =~= d);
    }
}

/// Reads an invoice amount: an optional `+` and decimal digits, as Rust's
/// `u128` parsing accepts. `None` where the text is no such number or its
/// value does not fit in 128 bits.
pub fn parse_amount(s: &str) -> (r: Option<u128>)
    ensures
        r is Some <==> is_decimal(s@) && decimal_value(decimal_digits(s@)) <= u128::MAX,
        r matches Some(v) ==> v == decimal_value(decimal_digits(s@)),
{
    let n = s.unicode_len();
    let start: usize = if n > 0 && s.get_char(0) == '+' {
        1
    } else {
        0
    };
    if start >= n {
        return None;
    }
    let ghost d = decimal_digits(s@);
    assert(d =~= s@.subrange(start as int, n as int));
    let mut acc: u128 = 0;
    let mut i: usize = start;
    while i < n
        invariant
            start <= i <= n,
            n == s@.len(),
            d == decimal_digits(s@),
            d =~= s@.subrange(start as int, n as int),
            forall|j: int| 0 <= j < i - start ==> '0' <= #[trigger] d[j] && d[j] <= '9',
            acc == decimal_value(d.subrange(0, i - start)),
        decreases n - i,
    {
        let c = s.get_char(i);
        if !('0' <= c && c <= '9') {
            assert(d[i - start] == c);
            assert(!is_decimal(s@));
            return None;
        }
        let digit: u128 = (c as u32 - '0' as u32) as u128;
        assert(d.subrange(0, i + 1 - start).drop_last() =~= d.subrange(0, i - start));
        match acc.checked_mul(10) {
            None => {
                proof {
                    assert(decimal_value(d.subrange(0, i + 1 - start)) > u128::MAX);
                    if is_decimal(s@) {
                        lemma_prefix_value_le(d, i + 1 - start);
                    }
                }
                return None;
            },
            Some(t) => match t.checked_add(digit) {
                None => {
                    proof {
                        assert(decimal_value(d.subrange(0, i + 1 - start)) > u128::MAX);
                        if is_decimal(s@) {
                            lemma_prefix_value_le(d, i + 1 - start);
                        }
                    }
                    return None;
                },
                Some(v) => {
                    acc = v;
                },
            },
        }
        i = i + 1;
    }
    assert(d.subrange(0, n - start) =~= d);
    Some(acc)
}

} // verus!
