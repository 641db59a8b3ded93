use vstd::prelude::*;
use vstd::string::StrSliceExecFns;

verus! {

/// Whether `c` is an ASCII decimal digit.
pub open spec fn is_digit(c: char) -> bool {
    '0' <= c && c <= '9'
}

/// The value of a run of decimal digits.
pub open spec fn digits_value(s: Seq<char>) -> nat
    decreases s.len(),
{
    if s.len() == 0 {
        0
    } else {
        digits_value(s.drop_last()) * 10 + (s.last() as nat - '0' as nat) as nat
    }
}

/// The digits that follow an optional leading `+`.
pub open spec fn unsigned_digits(s: Seq<char>) -> Seq<char> {
    if s.len() > 0 && s[0] == '+' {
        s.drop_first()
    } else {
        s
    }
}

/// The unsigned integer that `s` writes in decimal, with an optional leading `+`, and
/// no more than `max`; `None` for anything else.
pub open spec fn unsigned_value(s: Seq<char>, max: nat) -> Option<nat> {
    let t = unsigned_digits(s);
    if t.len() > 0 && (forall|i: int| 0 <= i < t.len() ==> #[trigger] is_digit(t[i]))
        && digits_value(t) <= max {
        Some(digits_value(t))
    } else {
        None
    }
}

proof fn lemma_digits_value_step(s: Seq<char>, i: int)
    requires
        0 <= i < s.len(),
    ensures
        digits_value(s.subrange(0, i + 1)) == digits_value(s.subrange(0, i)) * 10 + (s[i] as nat
            - '0' as nat) as nat,
{
    assert(s.subrange(0, i + 1).drop_last() =~= s.subrange(0, i));
}

/// Reads an unsigned decimal integer of at most `max`, as `str::parse` does for the
/// unsigned integer types.
pub fn parse_unsigned(s: &str, max: u64) -> (r: Option<u64>)
    ensures
        match r {
            Some(v) => unsigned_value(s@, max as nat) == Some(v as nat),
            None => unsigned_value(s@, max as nat) is None,
        },
{
    let n = s.unicode_len();
    let mut start: usize = 0;
    if n > 0 && s.get_char(0) == '+' {
        start = 1;
    }
    let ghost t = unsigned_digits(s@);
    assert(t =~= s@.subrange(start as int, n as int));
    if start == n {
        return None;
    }
    let mut v: u64 = 0;
    let mut over = false;
    let mut i: usize = start;
    while i < n
        invariant
            start <= i <= n,
            n == s@.len(),
            t == s@.subrange(start as int, n as int),
            t == unsigned_digits(s@),
            forall|j: int| 0 <= j < i - start ==> #[trigger] is_digit(t[j]),
            !over ==> v as nat == digits_value(t.subrange(0, i - start)) && v <= max,
            over ==> digits_value(t.subrange(0, i - start)) > max,
        decreases n - i,
    {
        let c = s.get_char(i);
        if c < '0' || c > '9' {
            assert(!is_digit(t[i - start]));
            assert(!(forall|j: int| 0 <= j < t.len() ==> #[trigger] is_digit(t[j])));
            assert(unsigned_value(s@, max as nat) is None);
            return None;
        }
        proof {
            lemma_digits_value_step(t, i - start);
        }
        let d = (c as u32 - '0' as u32) as u64;
        if !over {
            if d > max || v > (max - d) / 10 {
                over = true;
                assert(v * 10 + d > max) by (nonlinear_arith)
                    requires
                        d > max || v > (max - d) / 10,
                ;
            } else {
                assert(v * 10 + d <= max) by (nonlinear_arith)
                    requires
                        d <= max,
                        v <= (max - d) / 10,
                ;
                v = v * 10 + d;
            }
        } else {
            assert(digits_value(t.subrange(0, i - start)) * 10 + d >= digits_value(t.subrange(0, i - start))) by (nonlinear_arith);
        }
        i = i + 1;
    }
    assert(t.subrange(0, t.len() as int) =~= t);
    if over {
        None
    } else {
        Some(v)
    }
}

} // verus!
