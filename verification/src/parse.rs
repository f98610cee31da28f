//! Parsing operand tokens: register names and immediates.
//!
//! A register token is `x` followed by a decimal numeral. An immediate is an
//! optionally `+`-prefixed decimal, a `-`-prefixed decimal, or a `0x`/`0X`
//! hexadecimal. Hexadecimal values wider than 16 signed bits are truncated to
//! 16 bits rather than rejected; decimal values must fit the signed 16-bit
//! range.

use vstd::prelude::*;
use vstd::string::StrSliceExecFns;

verus! {

// ------------------------------------------------------------------
// Character classes and numeral values
// ------------------------------------------------------------------
pub open spec fn is_digit(c: char) -> bool {
    '0' <= c && c <= '9'
}

pub open spec fn is_hex_letter_lower(c: char) -> bool {
    'a' <= c && c <= 'f'
}

pub open spec fn is_hex_letter_upper(c: char) -> bool {
    'A' <= c && c <= 'F'
}

pub open spec fn is_hex_digit(c: char) -> bool {
    is_digit(c) || is_hex_letter_lower(c) || is_hex_letter_upper(c)
}

pub open spec fn all_digits(s: Seq<char>) -> bool {
    forall|i: int| 0 <= i < s.len() ==> is_digit(#[trigger] s[i])
}

pub open spec fn all_hex_digits(s: Seq<char>) -> bool {
    forall|i: int| 0 <= i < s.len() ==> is_hex_digit(#[trigger] s[i])
}

pub open spec fn digit_val(c: char) -> int {
    c as int - 48
}

pub open spec fn hex_digit_val(c: char) -> int {
    if is_digit(c) {
        c as int - 48
    } else if is_hex_letter_lower(c) {
        c as int - 87
    } else {
        c as int - 55
    }
}

/// The value of a decimal numeral (meaningful when `all_digits` holds).
pub open spec fn dec_value(s: Seq<char>) -> int
    decreases s.len(),
{
    if s.len() == 0 {
        0
    } else {
        dec_value(s.drop_last()) * 10 + digit_val(s.last())
    }
}

/// The value of a hexadecimal numeral (meaningful when `all_hex_digits`
/// holds).
pub open spec fn hex_value(s: Seq<char>) -> int
    decreases s.len(),
{
    if s.len() == 0 {
        0
    } else {
        hex_value(s.drop_last()) * 16 + hex_digit_val(s.last())
    }
}

pub proof fn lemma_dec_value_nonneg(s: Seq<char>)
    requires
        all_digits(s),
    ensures
        dec_value(s) >= 0,
    decreases s.len(),
{
    if s.len() > 0 {
        assert(all_digits(s.drop_last())) by {
            assert(forall|i: int| 0 <= i < s.len() - 1 ==> s.drop_last()[i] == s[i]);
        }
        lemma_dec_value_nonneg(s.drop_last());
    }
}

pub proof fn lemma_hex_value_nonneg(s: Seq<char>)
    requires
        all_hex_digits(s),
    ensures
        hex_value(s) >= 0,
    decreases s.len(),
{
    if s.len() > 0 {
        assert(all_hex_digits(s.drop_last())) by {
            assert(forall|i: int| 0 <= i < s.len() - 1 ==> s.drop_last()[i] == s[i]);
        }
        lemma_hex_value_nonneg(s.drop_last());
    }
}

// ------------------------------------------------------------------
// Whitespace trimming
// ------------------------------------------------------------------
pub open spec fn is_ws(c: char) -> bool {
    c == ' ' || c == '\t' || c == '\r' || c == '\n'
}

pub open spec fn trim_front(s: Seq<char>) -> Seq<char>
    decreases s.len(),
{
    if s.len() > 0 && is_ws(s[0]) {
        trim_front(s.subrange(1, s.len() as int))
    } else {
        s
    }
}

pub open spec fn trim_back(s: Seq<char>) -> Seq<char>
    decreases s.len(),
{
    if s.len() > 0 && is_ws(s.last()) {
        trim_back(s.drop_last())
    } else {
        s
    }
}

/// The token with leading and trailing whitespace removed.
pub open spec fn spec_trim(s: Seq<char>) -> Seq<char> {
    trim_back(trim_front(s))
}

proof fn lemma_trim_front_at(s: Seq<char>, a: int)
    requires
        0 <= a <= s.len(),
        forall|j: int| 0 <= j < a ==> is_ws(#[trigger] s[j]),
        a < s.len() ==> !is_ws(s[a]),
    ensures
        trim_front(s) == s.subrange(a, s.len() as int),
    decreases a,
{
    if a == 0 {
        assert(s.subrange(0, s.len() as int) =~= s);
    } else {
        let t = s.subrange(1, s.len() as int);
        lemma_trim_front_at(t, a - 1);
        assert(t.subrange(a - 1, t.len() as int) =~= s.subrange(a, s.len() as int));
    }
}

proof fn lemma_trim_back_at(s: Seq<char>, b: int)
    requires
        0 <= b <= s.len(),
        forall|j: int| b <= j < s.len() ==> is_ws(#[trigger] s[j]),
        b > 0 ==> !is_ws(s[b - 1]),
    ensures
        trim_back(s) == s.subrange(0, b),
    decreases s.len() - b,
{
    if b == s.len() {
        if s.len() > 0 && is_ws(s.last()) {
            assert(!is_ws(s[b - 1]));
            assert(false);
        }
        assert(s.subrange(0, b) =~= s);
    } else {
        let t = s.drop_last();
        assert(t =~= s.subrange(0, s.len() - 1));
        lemma_trim_back_at(t, b);
        assert(t.subrange(0, b) =~= s.subrange(0, b));
    }
}

/// Remove leading and trailing whitespace.
pub fn trim_str<'a>(s: &'a str) -> (t: &'a str)
    ensures
        t@ == spec_trim(s@),
{
    let n = s.unicode_len();
    let mut a: usize = 0;
    while a < n && is_ws_char(s.get_char(a))
        invariant
            0 <= a <= n,
            n == s@.len(),
            forall|j: int| 0 <= j < a ==> is_ws(#[trigger] s@[j]),
        decreases n - a,
    {
        a = a + 1;
    }
    proof {
        lemma_trim_front_at(s@, a as int);
    }
    if a == n {
        proof {
            assert(trim_front(s@) =~= Seq::<char>::empty());
            assert(trim_back(trim_front(s@)) =~= Seq::<char>::empty());
        }
        let t = s.substring_char(a, n);
        proof {
            assert(t@ =~= spec_trim(s@));
        }
        return t;
    }
    let mut b: usize = n;
    while b > a && is_ws_char(s.get_char(b - 1))
        invariant
            a <= b <= n,
            n == s@.len(),
            forall|j: int| b <= j < n ==> is_ws(#[trigger] s@[j]),
        decreases b,
    {
        b = b - 1;
    }
    // the front scan stopped at a non-whitespace character, so b > a here
    proof {
        let front = s@.subrange(a as int, n as int);
        assert(!is_ws(front[0]));
        if b == a {
            assert(is_ws(s@[a as int]));
            assert(false);
        }
        assert(forall|j: int| b - a <= j < front.len() ==> is_ws(#[trigger] front[j]));
        assert(!is_ws(front[b - a - 1]));
        lemma_trim_back_at(front, b as int - a as int);
        assert(front.subrange(0, b as int - a as int) =~= s@.subrange(a as int, b as int));
    }
    let t = s.substring_char(a, b);
    t
}

pub fn is_ws_char(c: char) -> (r: bool)
    ensures
        r == is_ws(c),
{
    c == ' ' || c == '\t' || c == '\r' || c == '\n'
}

// ------------------------------------------------------------------
// Register tokens
// ------------------------------------------------------------------
/// What a register token parses to: `x` followed by a decimal numeral whose
/// value fits eight bits. Out-of-range register numbers (32 through 255) are
/// not rejected here; they are masked during encoding.
pub open spec fn spec_parse_reg(t: Seq<char>) -> Option<u8> {
    if t.len() >= 2 && t[0] == 'x' && all_digits(t.subrange(1, t.len() as int)) && dec_value(
        t.subrange(1, t.len() as int),
    ) <= 255 {
        Some(dec_value(t.subrange(1, t.len() as int)) as u8)
    } else {
        None
    }
}

/// Parse a register token, `None` where the token is malformed.
pub fn parse_reg(reg: &str) -> (r: Option<u8>)
    ensures
        r == spec_parse_reg(reg@),
{
    let n = reg.unicode_len();
    if n < 2 {
        return None;
    }
    if reg.get_char(0) != 'x' {
        return None;
    }
    let ghost digits = reg@.subrange(1, n as int);
    let mut i: usize = 1;
    let mut acc: u32 = 0;
    while i < n
        invariant
            1 <= i <= n,
            n == reg@.len(),
            digits == reg@.subrange(1, n as int),
            all_digits(reg@.subrange(1, i as int)),
            dec_value(reg@.subrange(1, i as int)) <= 255 ==> acc == dec_value(
                reg@.subrange(1, i as int),
            ),
            dec_value(reg@.subrange(1, i as int)) > 255 ==> acc == 256,
            acc <= 256,
        decreases n - i,
    {
        let c = reg.get_char(i);
        let cv = c as u32;
        if cv < 48 || cv > 57 {
            proof {
                assert(reg@.subrange(1, n as int)[i - 1] == reg@[i as int]);
                assert(!all_digits(digits));
            }
            return None;
        }
        let d = cv - 48;
        proof {
            let prev = reg@.subrange(1, i as int);
            let cur = reg@.subrange(1, i as int + 1);
            assert(cur.drop_last() =~= prev);
            assert(cur.last() == reg@[i as int]);
            assert(forall|j: int| 0 <= j < i - 1 ==> cur[j] == prev[j]);
            lemma_dec_value_nonneg(prev);
        }
        acc = if acc > 25 || acc * 10 + d > 255 {
            256
        } else {
            acc * 10 + d
        };
        i = i + 1;
    }
    proof {
        assert(reg@.subrange(1, i as int) =~= digits);
        if dec_value(digits) <= 255 {
            lemma_dec_value_nonneg(digits);
        }
    }
    if acc > 255 {
        None
    } else {
        Some(acc as u8)
    }
}

// ------------------------------------------------------------------
// Immediate tokens
// ------------------------------------------------------------------
/// Reinterpret the low 16 bits of a (nonnegative) value as a signed 16-bit
/// immediate: two's-complement truncation.
pub open spec fn trunc_to_i16(v: int) -> i16 {
    ((v % 0x10000) as u16) as i16
}

/// What a sign-stripped decimal immediate parses to: nonempty digits whose
/// value fits the signed 16-bit range (up to 32768 when negated).
pub open spec fn spec_parse_dec_imm(ds: Seq<char>, neg: bool) -> Option<i16> {
    if ds.len() > 0 && all_digits(ds) {
        let v = dec_value(ds);
        if neg {
            if v <= 32768 {
                Some((-v) as i16)
            } else {
                None
            }
        } else {
            if v <= 32767 {
                Some(v as i16)
            } else {
                None
            }
        }
    } else {
        None
    }
}

/// What an immediate token parses to, after whitespace trimming: `0x`/`0X`
/// followed by hexadecimal digits (truncated to 16 bits when wider, however
/// wide the magnitude), or an optionally signed decimal that must fit the
/// signed 16-bit range.
pub open spec fn spec_parse_imm(t: Seq<char>) -> Option<i16> {
    let s = spec_trim(t);
    if s.len() >= 2 && s[0] == '0' && (s[1] == 'x' || s[1] == 'X') {
        let ds = s.subrange(2, s.len() as int);
        if ds.len() > 0 && all_hex_digits(ds) {
            Some(trunc_to_i16(hex_value(ds)))
        } else {
            None
        }
    } else if s.len() >= 1 && s[0] == '+' {
        spec_parse_dec_imm(s.subrange(1, s.len() as int), false)
    } else if s.len() >= 1 && s[0] == '-' {
        spec_parse_dec_imm(s.subrange(1, s.len() as int), true)
    } else {
        spec_parse_dec_imm(s, false)
    }
}

fn parse_dec_digits(s: &str, start: usize, neg: bool) -> (r: Option<i16>)
    requires
        start <= s@.len(),
    ensures
        r == spec_parse_dec_imm(s@.subrange(start as int, s@.len() as int), neg),
{
    let n = s.unicode_len();
    let ghost digits = s@.subrange(start as int, n as int);
    if start == n {
        return None;
    }
    let mut i: usize = start;
    let mut acc: u32 = 0;
    while i < n
        invariant
            start <= i <= n,
            n == s@.len(),
            digits == s@.subrange(start as int, n as int),
            all_digits(s@.subrange(start as int, i as int)),
            dec_value(s@.subrange(start as int, i as int)) <= 32768 ==> acc == dec_value(
                s@.subrange(start as int, i as int),
            ),
            dec_value(s@.subrange(start as int, i as int)) > 32768 ==> acc == 40000,
            acc <= 40000,
        decreases n - i,
    {
        let c = s.get_char(i);
        let cv = c as u32;
        if cv < 48 || cv > 57 {
            proof {
                assert(digits[i - start] == s@[i as int]);
                assert(!all_digits(digits));
            }
            return None;
        }
        let d = cv - 48;
        proof {
            let prev = s@.subrange(start as int, i as int);
            let cur = s@.subrange(start as int, i as int + 1);
            assert(cur.drop_last() =~= prev);
            assert(cur.last() == s@[i as int]);
            assert(forall|j: int| 0 <= j < i - start ==> cur[j] == prev[j]);
            lemma_dec_value_nonneg(prev);
        }
        acc = if acc > 3276 || acc * 10 + d > 32768 {
            40000
        } else {
            acc * 10 + d
        };
        i = i + 1;
    }
    proof {
        assert(s@.subrange(start as int, i as int) =~= digits);
        if dec_value(digits) <= 32768 {
            lemma_dec_value_nonneg(digits);
        }
    }
    if neg {
        if acc > 32768 {
            None
        } else {
            Some((-(acc as i32)) as i16)
        }
    } else {
        if acc > 32767 {
            None
        } else {
            Some(acc as i16)
        }
    }
}

proof fn lemma_mod_mul_add_step(v: int, d: int)
    requires
        v >= 0,
        d >= 0,
    ensures
        ((v % 0x10000) * 16 + d) % 0x10000 == (v * 16 + d) % 0x10000,
{
    vstd::arithmetic::div_mod::lemma_mul_mod_noop_left(v, 16, 0x10000);
    vstd::arithmetic::div_mod::lemma_add_mod_noop((v % 0x10000) * 16, d, 0x10000);
    vstd::arithmetic::div_mod::lemma_add_mod_noop(v * 16, d, 0x10000);
}

fn parse_hex_digits(s: &str, start: usize) -> (r: Option<i16>)
    requires
        start <= s@.len(),
    ensures
        ({
            let ds = s@.subrange(start as int, s@.len() as int);
            if ds.len() > 0 && all_hex_digits(ds) {
                r == Some(trunc_to_i16(hex_value(ds)))
            } else {
                r == None::<i16>
            }
        }),
{
    let n = s.unicode_len();
    let ghost digits = s@.subrange(start as int, n as int);
    if start == n {
        return None;
    }
    let mut i: usize = start;
    // only the low 16 bits of the value matter: wider magnitudes truncate
    let mut low: u32 = 0;
    while i < n
        invariant
            start <= i <= n,
            n == s@.len(),
            digits == s@.subrange(start as int, n as int),
            all_hex_digits(s@.subrange(start as int, i as int)),
            low == hex_value(s@.subrange(start as int, i as int)) % 0x10000,
        decreases n - i,
    {
        let c = s.get_char(i);
        let cv = c as u32;
        let d: u32 = if cv >= 48 && cv <= 57 {
            cv - 48
        } else if cv >= 97 && cv <= 102 {
            cv - 87
        } else if cv >= 65 && cv <= 70 {
            cv - 55
        } else {
            proof {
                assert(digits[i - start] == s@[i as int]);
                assert(!all_hex_digits(digits));
            }
            return None;
        };
        proof {
            let prev = s@.subrange(start as int, i as int);
            let cur = s@.subrange(start as int, i as int + 1);
            assert(cur.drop_last() =~= prev);
            assert(cur.last() == s@[i as int]);
            assert(forall|j: int| 0 <= j < i - start ==> cur[j] == prev[j]);
            lemma_hex_value_nonneg(prev);
            lemma_mod_mul_add_step(hex_value(prev), hex_digit_val(cur.last()));
            assert(low <= 0xFFFF && d <= 15);
            assert(low <= 0xFFFF && d <= 15 ==> ((low * 16 + d) as u32) & 0xFFFF == ((low * 16 + d)
                as u32) % 0x10000) by (bit_vector);
        }
        low = (low * 16 + d) & 0xFFFF;
        i = i + 1;
    }
    proof {
        assert(s@.subrange(start as int, i as int) =~= digits);
        lemma_hex_value_nonneg(digits);
    }
    Some((low as u16) as i16)
}

/// Parse an immediate token, `None` where the token is malformed or a decimal
/// value is out of the signed 16-bit range. Hexadecimal values wider than 16
/// signed bits are truncated, not rejected.
pub fn parse_imm(imm_str: &str) -> (r: Option<i16>)
    ensures
        r == spec_parse_imm(imm_str@),
{
    let tr = trim_str(imm_str);
    let n = tr.unicode_len();
    if n >= 2 && tr.get_char(0) == '0' && (tr.get_char(1) == 'x' || tr.get_char(1) == 'X') {
        parse_hex_digits(tr, 2)
    } else if n >= 1 && tr.get_char(0) == '+' {
        parse_dec_digits(tr, 1, false)
    } else if n >= 1 && tr.get_char(0) == '-' {
        parse_dec_digits(tr, 1, true)
    } else {
        proof {
            assert(tr@.subrange(0, tr@.len() as int) =~= tr@);
        }
        parse_dec_digits(tr, 0, false)
    }
}

} // verus!
