use vstd::prelude::*;

verus! {

/// Upper bound at which the parser stops counting: one past the magnitude of `i64::MIN`.
const SATURATION: u128 = 9223372036854775809;

pub open spec fn is_digit(b: u8) -> bool {
    48 <= b && b <= 57
}

pub open spec fn all_digits(s: Seq<u8>) -> bool {
    forall|i: int| 0 <= i < s.len() ==> #[trigger] is_digit(s[i])
}

/// The number that a string of ASCII decimal digits denotes.
pub open spec fn digits_value(s: Seq<u8>) -> nat
    decreases s.len(),
{
    if s.len() == 0 {
        0
    } else {
        digits_value(s.drop_last()) * 10 + (s.last() - 48) as nat
    }
}

/// The bytes after an optional leading `+` or `-`.
pub open spec fn unsigned_part(s: Seq<u8>) -> Seq<u8> {
    if s.len() > 0 && (s[0] == 45 || s[0] == 43) {
        s.subrange(1, s.len() as int)
    } else {
        s
    }
}

pub open spec fn is_negative(s: Seq<u8>) -> bool {
    s.len() > 0 && s[0] == 45
}

/// The `i64` written in decimal by `s`: an optional sign, then one or more
/// digits, nothing else, and a value that fits in an `i64`.
pub open spec fn decimal_value(s: Seq<u8>) -> Option<i64> {
    let body = unsigned_part(s);
    let v: int = if is_negative(s) { -digits_value(body) } else { digits_value(body) as int };
    if body.len() > 0 && all_digits(body) && i64::MIN <= v && v <= i64::MAX {
        Some(v as i64)
    } else {
        None
    }
}

/// The shortest decimal digits of `n`.
pub open spec fn digits_of(n: nat) -> Seq<u8>
    decreases n,
{
    if n < 10 {
        seq![(n + 48) as u8]
    } else {
        digits_of(n / 10).push((n % 10 + 48) as u8)
    }
}

/// The record that holds the timestamp `t`: its decimal form, with a `-` when negative.
pub open spec fn encode_spec(t: i64) -> Seq<u8> {
    if t < 0 {
        seq![45u8] + digits_of((-t) as nat)
    } else {
        digits_of(t as nat)
    }
}

proof fn lemma_saturating_step(v: nat, d: nat)
    requires
        d < 10,
    ensures
        ({
            let c = SATURATION as nat;
            let m: nat = if v < c { v } else { c };
            let a: nat = if v * 10 + d < c { v * 10 + d } else { c };
            let b: nat = if m * 10 + d < c { m * 10 + d } else { c };
            a == b
        }),
{
    if v >= SATURATION {
        assert(v * 10 + d >= SATURATION) by (nonlinear_arith)
            requires
                v >= SATURATION,
        ;
    }
}

/// Reads a decimal `i64` as std's integer parsing does: an optional sign, then digits.
pub fn parse_decimal(text: &[u8]) -> (r: Option<i64>)
    ensures
        r == decimal_value(text@),
{
    let n = text.len();
    let neg = n > 0 && text[0] == 45;
    let start: usize = if n > 0 && (text[0] == 45 || text[0] == 43) { 1 } else { 0 };
    proof {
        assert(unsigned_part(text@) =~= text@.subrange(start as int, n as int));
    }
    if start == n {
        return None;
    }
    let mut acc: u128 = 0;
    let mut i: usize = start;
    while i < n
        invariant
            start <= i <= n,
            n == text@.len(),
            acc as nat == (if digits_value(text@.subrange(start as int, i as int)) < SATURATION {
                digits_value(text@.subrange(start as int, i as int))
            } else {
                SATURATION as nat
            }),
            all_digits(text@.subrange(start as int, i as int)),
            unsigned_part(text@) == text@.subrange(start as int, n as int),
            neg == is_negative(text@),
        decreases n - i,
    {
        let b = text[i];
        if b < 48 || b > 57 {
            proof {
                let body = text@.subrange(start as int, n as int);
                assert(body[i - start] == b);
                assert(!is_digit(body[i - start]));
                assert(!all_digits(body));
                assert(unsigned_part(text@) == body);
            }
            return None;
        }
        let d: u128 = (b - 48) as u128;
        proof {
            let prev = text@.subrange(start as int, i as int);
            let next = text@.subrange(start as int, i + 1);
            assert(next.drop_last() =~= prev);
            lemma_saturating_step(digits_value(prev), d as nat);
            assert forall|k: int| 0 <= k < next.len() implies #[trigger] is_digit(next[k]) by {
                if k < prev.len() {
                    assert(next[k] == prev[k]);
                }
            }
        }
        let grown = acc * 10 + d;
        acc = if grown < SATURATION { grown } else { SATURATION };
        i = i + 1;
    }
    if neg {
        if acc <= 9223372036854775808 {
            Some((0 - (acc as i128)) as i64)
        } else {
            None
        }
    } else {
        if acc <= 9223372036854775807 {
            Some(acc as i64)
        } else {
            None
        }
    }
}

proof fn lemma_digits_of(n: nat)
    ensures
        digits_of(n).len() > 0,
        all_digits(digits_of(n)),
        digits_value(digits_of(n)) == n,
    decreases n,
{
    if n >= 10 {
        lemma_digits_of(n / 10);
        let s = digits_of(n / 10).push((n % 10 + 48) as u8);
        assert(s.drop_last() =~= digits_of(n / 10));
        assert(digits_of(n) == s);
        assert(s.last() - 48 == n % 10);
        assert(digits_value(s) == digits_value(digits_of(n / 10)) * 10 + n % 10);
        assert forall|i: int| 0 <= i < s.len() implies #[trigger] is_digit(s[i]) by {
            if i < s.len() - 1 {
                assert(s[i] == digits_of(n / 10)[i]);
            }
        }
    } else {
        let s = digits_of(n);
        assert(s.drop_last() =~= Seq::<u8>::empty());
        assert(digits_value(Seq::<u8>::empty()) == 0);
        assert(s.last() - 48 == n);
        assert(digits_value(s) == digits_value(s.drop_last()) * 10 + (s.last() - 48) as nat);
    }
}

/// Reading back a record always gives the timestamp that was written into it.
pub proof fn lemma_record_round_trip(t: i64)
    ensures
        decimal_value(encode_spec(t)) == Some(t),
{
    if t < 0 {
        let m = (-t) as nat;
        lemma_digits_of(m);
        let s = encode_spec(t);
        assert(unsigned_part(s) =~= digits_of(m));
    } else {
        lemma_digits_of(t as nat);
        let s = digits_of(t as nat);
        assert(is_digit(s[0]));
    }
}

/// The record written for timestamp `t`.
pub fn encode_heartbeat(t: i64) -> (r: Vec<u8>)
    ensures
        r@ == encode_spec(t),
{
    let mag: u64 = if t < 0 { (0 - (t as i128)) as u64 } else { t as u64 };
    let mut m: u64 = mag;
    let mut out: Vec<u8> = Vec::new();
    while m >= 10
        invariant
            digits_of(mag as nat) == digits_of(m as nat) + out@,
        decreases m,
    {
        let d: u8 = (m % 10) as u8 + 48;
        let ghost before = out@;
        out.insert(0, d);
        proof {
            assert(digits_of(m as nat) == digits_of((m / 10) as nat).push(d));
            assert(digits_of((m / 10) as nat).push(d) + before =~= digits_of((m / 10) as nat) + out@);
        }
        m = m / 10;
    }
    let ghost before = out@;
    out.insert(0, (m as u8) + 48);
    proof {
        assert(digits_of(m as nat) + before =~= out@);
    }
    if t < 0 {
        let ghost digits = out@;
        out.insert(0, 45);
        proof {
            assert(out@ =~= seq![45u8] + digits);
        }
    }
    out
}

} // verus!
