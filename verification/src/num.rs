//! Numbers as text: decimal rendering, decimal parsing in the manner of
//! `str::parse` for unsigned integers, and wrapping conversion to `u32`.

use vstd::prelude::*;

verus! {

/// `k` reduced modulo 2^32, as a wrapping `u32` counter or an `as u32`
/// cast yields it.
pub open spec fn wrap_u32(k: int) -> u32 {
    (k % 4294967296) as u32
}

/// A wrapping counter that is incremented stays equal to `wrap_u32` of
/// the count.
pub proof fn lemma_wrap_u32_succ(k: int)
    requires
        k >= 0,
    ensures
        wrap_u32(k + 1) == (if wrap_u32(k) == u32::MAX { 0u32 } else { (wrap_u32(k) + 1) as u32 }),
{
    assert((k + 1) % 4294967296 == (if k % 4294967296 == 4294967295 { 0 } else { k % 4294967296 + 1 }))
        by (nonlinear_arith)
        requires
            k >= 0,
    ;
}

/// `x as u32` for a `usize`: the value modulo 2^32.
pub fn usize_to_u32_wrapping(x: usize) -> (r: u32)
    ensures
        r == wrap_u32(x as int),
{
    ((x as u64) % 4294967296u64) as u32
}

/// The ASCII digit of `d` (0 to 9).
pub open spec fn digit_char(d: int) -> char {
    (48 + d) as char
}

/// The decimal rendering of `n`, as `Display` writes it.
pub open spec fn decimal(n: nat) -> Seq<char>
    decreases n,
{
    if n < 10 {
        seq![digit_char(n as int)]
    } else {
        decimal(n / 10).push(digit_char((n % 10) as int))
    }
}

fn digit_of(n: u64) -> (c: char)
    ensures
        c == digit_char((n % 10) as int),
{
    let d: u8 = (n % 10) as u8;
    let c = (d + 48) as char;
    assert(c == digit_char(d as int)) by {
        assert((d + 48) as char == (48 + d as int) as char);
    }
    c
}

/// The decimal digits of `n`.
pub fn decimal_chars(n: u64) -> (v: Vec<char>)
    ensures
        v@ == decimal(n as nat),
    decreases n,
{
    if n < 10 {
        let c = digit_of(n);
        assert(n % 10 == n);
        let mut v: Vec<char> = Vec::new();
        v.push(c);
        v
    } else {
        let mut v = decimal_chars(n / 10);
        v.push(digit_of(n));
        v
    }
}

/// `n.to_string()`.
pub fn u64_to_string(n: u64) -> (s: String)
    ensures
        s@ == decimal(n as nat),
{
    let v = decimal_chars(n);
    crate::text::string_of(&v)
}

/// Whether every character is an ASCII digit.
pub open spec fn all_digits(s: Seq<char>) -> bool {
    forall|i: int| 0 <= i < s.len() ==> '0' <= #[trigger] s[i] <= '9'
}

/// The value of a string of ASCII digits.
pub open spec fn digits_value(s: Seq<char>) -> int
    decreases s.len(),
{
    if s.len() == 0 {
        0
    } else {
        digits_value(s.drop_last()) * 10 + (s.last() as int - 48)
    }
}

/// What `str::parse` gives for an unsigned integer type whose largest
/// value is `max`: an optional `+`, then at least one ASCII digit, with a
/// value of at most `max`; anything else fails.
pub open spec fn parse_unsigned(s: Seq<char>, max: int) -> Option<int> {
    let body = if s.len() > 0 && s[0] == '+' {
        s.drop_first()
    } else {
        s
    };
    if body.len() > 0 && all_digits(body) && digits_value(body) <= max {
        Some(digits_value(body))
    } else {
        None
    }
}

proof fn lemma_digits_value_nonneg(s: Seq<char>)
    requires
        all_digits(s),
    ensures
        digits_value(s) >= 0,
    decreases s.len(),
{
    if s.len() > 0 {
        assert(all_digits(s.drop_last())) by {
            assert forall|i: int| 0 <= i < s.drop_last().len() implies '0' <= #[trigger] s.drop_last()[i] <= '9' by {
                assert(s.drop_last()[i] == s[i]);
            }
        }
        lemma_digits_value_nonneg(s.drop_last());
    }
}

/// Parses `s` as `str::parse` parses an unsigned integer whose largest
/// value is `max`.
pub fn parse_unsigned_exec(s: &Vec<char>, max: u64) -> (r: Option<u64>)
    ensures
        match parse_unsigned(s@, max as int) {
            Some(v) => r == Some(v as u64),
            None => r is None,
        },
        r matches Some(x) ==> x <= max,
        parse_unsigned(s@, max as int) matches Some(v) ==> 0 <= v <= max,
{
    let start: usize = if s.len() > 0 && s[0] == '+' {
        1
    } else {
        0
    };
    let ghost body = if s@.len() > 0 && s@[0] == '+' {
        s@.drop_first()
    } else {
        s@
    };
    proof {
        assert(body =~= s@.skip(start as int));
    }
    if start >= s.len() {
        return None;
    }
    proof {
        assert(all_digits(s@.subrange(start as int, start as int)));
    }
    let mut acc: u128 = 0;
    let mut over = false;
    let mut i: usize = start;
    while i < s.len()
        invariant
            start == (if s@.len() > 0 && s@[0] == '+' { 1int } else { 0int }),
            start <= i <= s@.len(),
            body == s@.skip(start as int),
            all_digits(s@.subrange(start as int, i as int)),
            over ==> digits_value(s@.subrange(start as int, i as int)) > max,
            !over ==> acc == digits_value(s@.subrange(start as int, i as int)),
            !over ==> acc <= max,
        decreases s@.len() - i,
    {
        let c = s[i];
        let ghost pre = s@.subrange(start as int, i as int);
        let ghost cur = s@.subrange(start as int, i + 1);
        proof {
            assert(cur.drop_last() =~= pre);
            assert(cur.last() == c);
        }
        if c < '0' || c > '9' {
            proof {
                assert(body[i - start] == c);
                assert(!all_digits(body));
                assert(body == (if s@.len() > 0 && s@[0] == '+' {
                    s@.drop_first()
                } else {
                    s@
                }));
            }
            return None;
        }
        proof {
            assert forall|j: int| 0 <= j < cur.len() implies '0' <= #[trigger] cur[j] <= '9' by {
                if j < pre.len() {
                    assert(cur[j] == pre[j]);
                }
            }
            lemma_digits_value_nonneg(pre);
        }
        let d = (c as u32 - 48) as u128;
        if !over {
            acc = acc * 10 + d;
            if acc > max as u128 {
                over = true;
            }
        }
        i = i + 1;
    }
    proof {
        assert(s@.subrange(start as int, s@.len() as int) =~= body);
        lemma_digits_value_nonneg(body);
    }
    if over {
        None
    } else {
        Some(acc as u64)
    }
}

} // verus!
