//! Decimal rendering and scanning of unsigned integers, used by the payload
//! builders and parsers.

use vstd::prelude::*;

verus! {

pub open spec fn is_digit(c: char) -> bool {
    '0' <= c && c <= '9'
}

pub open spec fn digit_val(c: char) -> nat {
    (c as nat - '0' as nat) as nat
}

pub open spec fn digit_char(d: nat) -> char {
    if d == 0 { '0' }
    else if d == 1 { '1' }
    else if d == 2 { '2' }
    else if d == 3 { '3' }
    else if d == 4 { '4' }
    else if d == 5 { '5' }
    else if d == 6 { '6' }
    else if d == 7 { '7' }
    else if d == 8 { '8' }
    else { '9' }
}

/// Decimal digits of `n`, most significant first.
pub open spec fn dec(n: nat) -> Seq<char>
    decreases n,
{
    if n < 10 {
        seq![digit_char(n)]
    } else {
        dec(n / 10).push(digit_char(n % 10))
    }
}

/// Scans a run of digits starting at `from`, accumulating onto `acc`;
/// yields the value and the index of the first non-digit, or nothing if the
/// value would not fit in 64 bits.
pub open spec fn scan_num(s: Seq<char>, from: int, acc: nat) -> Option<(nat, int)>
    decreases s.len() - from when from <= s.len()
{
    if from < 0 || from >= s.len() || !is_digit(s[from]) {
        Some((acc, from))
    } else {
        let acc2 = acc * 10 + digit_val(s[from]);
        if acc2 > 0xffff_ffff_ffff_ffffnat {
            None
        } else {
            scan_num(s, from + 1, acc2)
        }
    }
}

pub proof fn lemma_scan_num_bounds(s: Seq<char>, from: int, acc: nat)
    requires
        0 <= from <= s.len(),
        acc <= 0xffff_ffff_ffff_ffffnat,
    ensures
        scan_num(s, from, acc) is Some ==> {
            let (v, e) = scan_num(s, from, acc)->Some_0;
            &&& from <= e <= s.len()
            &&& v <= 0xffff_ffff_ffff_ffffnat
            &&& (e < s.len() ==> !is_digit(s[e]))
            &&& forall|j: int| from <= j < e ==> is_digit(s[j])
        },
    decreases s.len() - from,
{
    if from < s.len() && is_digit(s[from]) {
        let acc2 = acc * 10 + digit_val(s[from]);
        if acc2 <= 0xffff_ffff_ffff_ffffnat {
            lemma_scan_num_bounds(s, from + 1, acc2);
        }
    }
}

/// A digit rendered as a one-character string.
pub fn digit_str(d: u64) -> (r: &'static str)
    requires
        d < 10,
    ensures
        r@ =~= seq![digit_char(d as nat)],
{
    proof {
        reveal_strlit("0");
        reveal_strlit("1");
        reveal_strlit("2");
        reveal_strlit("3");
        reveal_strlit("4");
        reveal_strlit("5");
        reveal_strlit("6");
        reveal_strlit("7");
        reveal_strlit("8");
        reveal_strlit("9");
    }
    if d == 0 { "0" }
    else if d == 1 { "1" }
    else if d == 2 { "2" }
    else if d == 3 { "3" }
    else if d == 4 { "4" }
    else if d == 5 { "5" }
    else if d == 6 { "6" }
    else if d == 7 { "7" }
    else if d == 8 { "8" }
    else { "9" }
}

/// Renders `n` in decimal.
pub fn u64_to_dec(n: u64) -> (r: String)
    ensures
        r@ == dec(n as nat),
    decreases n,
{
    if n < 10 {
        digit_str(n).to_owned()
    } else {
        let mut s = u64_to_dec(n / 10);
        s.append(digit_str(n % 10));
        proof {
            assert(s@ =~= dec(n as nat));
        }
        s
    }
}

/// Scans a run of digits of `s` starting at `from`.
pub fn scan_num_str(s: &str, from: usize) -> (r: Option<(u64, usize)>)
    requires
        from <= s@.len(),
    ensures
        match r {
            Some((v, e)) => scan_num(s@, from as int, 0) == Some((v as nat, e as int)),
            None => scan_num(s@, from as int, 0) is None,
        },
{
    let n = s.unicode_len();
    let mut i = from;
    let mut acc: u64 = 0;
    while i < n
        invariant
            from <= i <= n,
            n == s@.len(),
            scan_num(s@, from as int, 0) == scan_num(s@, i as int, acc as nat),
        decreases n - i,
    {
        let c = s.get_char(i);
        if c < '0' || c > '9' {
            return Some((acc, i));
        }
        let d: u64 = (c as u32 as u64) - ('0' as u32 as u64);
        proof {
            assert(d == digit_val(s@[i as int]));
        }
        if acc > 0xffff_ffff_ffff_ffffu64 / 10 || acc * 10 > 0xffff_ffff_ffff_ffffu64 - d {
            proof {
                assert(acc as nat * 10 + d as nat > 0xffff_ffff_ffff_ffffnat);
            }
            return None;
        }
        acc = acc * 10 + d;
        i += 1;
    }
    Some((acc, i))
}

} // verus!
