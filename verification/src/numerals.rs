//! Decimal numerals: rendering integers as strings and parsing `u8`
//! values the way the configuration keys use them.

use vstd::prelude::*;

verus! {

/// The character for a single decimal digit value.
pub open spec fn digit_char(d: nat) -> char {
    if d == 0 {
        '0'
    } else if d == 1 {
        '1'
    } else if d == 2 {
        '2'
    } else if d == 3 {
        '3'
    } else if d == 4 {
        '4'
    } else if d == 5 {
        '5'
    } else if d == 6 {
        '6'
    } else if d == 7 {
        '7'
    } else if d == 8 {
        '8'
    } else {
        '9'
    }
}

/// The usual decimal rendering of `n`, most significant digit first,
/// without sign or leading zeros (`0` renders as `"0"`).
pub open spec fn dec_rep(n: nat) -> Seq<char>
    decreases n,
{
    if n < 10 {
        seq![digit_char(n)]
    } else {
        dec_rep(n / 10) + seq![digit_char(n % 10)]
    }
}

/// Whether `c` is an ASCII decimal digit.
pub open spec fn is_digit(c: char) -> bool {
    '0' as u32 <= c as u32 && c as u32 <= '9' as u32
}

/// The value of a digit character; zero for anything that is not a digit.
pub open spec fn digit_val(c: char) -> nat {
    if is_digit(c) {
        (c as u32 - '0' as u32) as nat
    } else {
        0
    }
}

/// The value of a digit string read most significant digit first.
pub open spec fn digits_val(s: Seq<char>) -> nat
    decreases s.len(),
{
    if s.len() == 0 {
        0
    } else {
        digits_val(s.drop_last()) * 10 + digit_val(s.last())
    }
}

/// `s` without an optional single leading `'+'`.
pub open spec fn strip_plus(s: Seq<char>) -> Seq<char> {
    if s.len() > 0 && s[0] == '+' {
        s.subrange(1, s.len() as int)
    } else {
        s
    }
}

/// Whether every character of `s` is a decimal digit.
pub open spec fn all_digits(s: Seq<char>) -> bool {
    forall|i: int| 0 <= i < s.len() ==> is_digit(#[trigger] s[i])
}

/// Whether `s` is a numeral that `str::parse::<u8>` accepts: an optional
/// leading `'+'`, then at least one digit, with a value that fits in a `u8`.
pub open spec fn valid_u8_numeral(s: Seq<char>) -> bool {
    strip_plus(s).len() > 0 && all_digits(strip_plus(s)) && digits_val(strip_plus(s)) <= 255
}

/// What `str::parse::<u8>` returns on `s`.
pub open spec fn parse_u8_spec(s: Seq<char>) -> Option<u8> {
    if valid_u8_numeral(s) {
        Some(digits_val(strip_plus(s)) as u8)
    } else {
        None
    }
}

/// Whether `s` is a numeral that `str::parse::<u32>` accepts.
pub open spec fn valid_u32_numeral(s: Seq<char>) -> bool {
    strip_plus(s).len() > 0 && all_digits(strip_plus(s)) && digits_val(strip_plus(s)) <= 0xFFFFFFFF
}

/// What `str::parse::<u32>` returns on `s`.
pub open spec fn parse_u32_spec(s: Seq<char>) -> Option<u32> {
    if valid_u32_numeral(s) {
        Some(digits_val(strip_plus(s)) as u32)
    } else {
        None
    }
}

fn digit_str(d: u64) -> (r: &'static str)
    requires
        d < 10,
    ensures
        r@ == seq![digit_char(d as nat)],
{
    proof {
        reveal_strlit("0");
        reveal_strlit("1");
        reveal_strlit("2");
        reveal_strlit("3");
        reveal_strlit("4");
        reveal_strlit("5");
        reveal_strlit("6");
        reveal_strlit("7");
        reveal_strlit("8");
        reveal_strlit("9");
    }
    let r = if d == 0 {
        "0"
    } else if d == 1 {
        "1"
    } else if d == 2 {
        "2"
    } else if d == 3 {
        "3"
    } else if d == 4 {
        "4"
    } else if d == 5 {
        "5"
    } else if d == 6 {
        "6"
    } else if d == 7 {
        "7"
    } else if d == 8 {
        "8"
    } else {
        "9"
    };
    proof {
        assert(r@ =~= seq![digit_char(d as nat)]);
    }
    r
}

/// Renders `n` in decimal.
pub fn dec_u64(n: u64) -> (r: String)
    ensures
        r@ == dec_rep(n as nat),
    decreases n,
{
    if n < 10 {
        String::from_str(digit_str(n))
    } else {
        let prefix = dec_u64(n / 10);
        let r = prefix.concat(digit_str(n % 10));
        proof {
            assert(r@ =~= dec_rep(n as nat));
        }
        r
    }
}

/// Renders `n` in decimal.
pub fn dec_u32(n: u32) -> (r: String)
    ensures
        r@ == dec_rep(n as nat),
{
    dec_u64(n as u64)
}

/// Renders `n` in decimal.
pub fn dec_u8(n: u8) -> (r: String)
    ensures
        r@ == dec_rep(n as nat),
{
    dec_u64(n as u64)
}

/// Renders `n` in decimal.
pub fn dec_usize(n: usize) -> (r: String)
    ensures
        r@ == dec_rep(n as nat),
{
    dec_u64(n as u64)
}

proof fn lemma_digits_val_grows(s: Seq<char>, i: int)
    requires
        0 <= i <= s.len(),
    ensures
        digits_val(s.subrange(0, i)) <= digits_val(s),
    decreases s.len() - i,
{
    if i == s.len() {
        assert(s.subrange(0, i) =~= s);
    } else {
        lemma_digits_val_grows(s, i + 1);
        let t = s.subrange(0, i + 1);
        assert(t.drop_last() =~= s.subrange(0, i));
        assert(digits_val(t) == digits_val(s.subrange(0, i)) * 10 + digit_val(s[i]));
    }
}

/// Parses the characters of `s` as `str::parse::<u32>` would.
pub fn parse_u32_chars(s: &Vec<char>) -> (r: Option<u32>)
    ensures
        r == parse_u32_spec(s@),
{
    let len = s.len();
    let start: usize = if len > 0 && s[0] == '+' {
        1
    } else {
        0
    };
    let ghost d = strip_plus(s@);
    proof {
        assert(d =~= s@.subrange(start as int, s@.len() as int));
    }
    if start == len {
        return None;
    }
    let mut acc: u64 = 0;
    let mut i: usize = start;
    while i < len
        invariant
            start <= i <= len,
            len == s@.len(),
            start <= 1,
            d == strip_plus(s@),
            d == s@.subrange(start as int, s@.len() as int),
            forall|j: int| start <= j < i ==> is_digit(#[trigger] s@[j]),
            acc == digits_val(s@.subrange(start as int, i as int)),
            acc <= 0xFFFFFFFF,
        decreases len - i,
    {
        let c = s[i];
        let cv = c as u32;
        if cv < '0' as u32 || cv > '9' as u32 {
            proof {
                assert(d[i - start] == s@[i as int]);
                assert(!is_digit(d[i - start]));
            }
            return None;
        }
        let dv = (cv - '0' as u32) as u64;
        let next = acc * 10 + dv;
        proof {
            let p = s@.subrange(start as int, i + 1);
            assert(p.drop_last() =~= s@.subrange(start as int, i as int));
            assert(digits_val(p) == acc * 10 + digit_val(c));
        }
        if next > 0xFFFFFFFF {
            proof {
                let p = s@.subrange(start as int, i + 1);
                assert(p =~= d.subrange(0, i + 1 - start));
                lemma_digits_val_grows(d, i + 1 - start);
            }
            return None;
        }
        acc = next;
        i += 1;
    }
    proof {
        assert(s@.subrange(start as int, i as int) =~= d);
        assert(forall|j: int| 0 <= j < d.len() ==> is_digit(#[trigger] d[j])) by {
            assert(forall|j: int| 0 <= j < d.len() ==> d[j] == #[trigger] s@[j + start]);
        }
    }
    Some(acc as u32)
}

/// Parses the characters of `s` as `str::parse::<u8>` would.
pub fn parse_u8_chars(s: &Vec<char>) -> (r: Option<u8>)
    ensures
        r == parse_u8_spec(s@),
{
    let len = s.len();
    let start: usize = if len > 0 && s[0] == '+' {
        1
    } else {
        0
    };
    let ghost d = strip_plus(s@);
    proof {
        assert(d =~= s@.subrange(start as int, s@.len() as int));
    }
    if start == len {
        return None;
    }
    let mut acc: u32 = 0;
    let mut i: usize = start;
    while i < len
        invariant
            start <= i <= len,
            len == s@.len(),
            start <= 1,
            d == strip_plus(s@),
            d == s@.subrange(start as int, s@.len() as int),
            forall|j: int| start <= j < i ==> is_digit(#[trigger] s@[j]),
            acc == digits_val(s@.subrange(start as int, i as int)),
            acc <= 255,
        decreases len - i,
    {
        let c = s[i];
        let cv = c as u32;
        if cv < '0' as u32 || cv > '9' as u32 {
            proof {
                assert(d[i - start] == s@[i as int]);
                assert(!is_digit(d[i - start]));
            }
            return None;
        }
        let dv = cv - '0' as u32;
        let next = acc * 10 + dv;
        proof {
            let p = s@.subrange(start as int, i + 1);
            assert(p.drop_last() =~= s@.subrange(start as int, i as int));
            assert(digits_val(p) == acc * 10 + digit_val(c));
        }
        if next > 255 {
            proof {
                let p = s@.subrange(start as int, i + 1);
                assert(p =~= d.subrange(0, i + 1 - start));
                lemma_digits_val_grows(d, i + 1 - start);
            }
            return None;
        }
        acc = next;
        i += 1;
    }
    proof {
        assert(s@.subrange(start as int, i as int) =~= d);
        assert(forall|j: int| 0 <= j < d.len() ==> is_digit(#[trigger] d[j])) by {
            assert(forall|j: int| 0 <= j < d.len() ==> d[j] == #[trigger] s@[j + start]);
        }
    }
    Some(acc as u8)
}

} // verus!
