//! Deterministic name generation for rendered test cases: decimal indices
//! zero-padded to a fixed width, identifier sanitization, and truncation of
//! long descriptions.

use vstd::prelude::*;
use vstd::string::StringExecFns;
use crate::model::{opt_view, TestCase};

verus! {

/// The character for one decimal digit.
pub open spec fn digit_char(d: nat) -> char {
    if d == 0 {
        '0'
    } else if d == 1 {
        '1'
    } else if d == 2 {
        '2'
    } else if d == 3 {
        '3'
    } else if d == 4 {
        '4'
    } else if d == 5 {
        '5'
    } else if d == 6 {
        '6'
    } else if d == 7 {
        '7'
    } else if d == 8 {
        '8'
    } else {
        '9'
    }
}

/// Decimal rendering of a natural number, most significant digit first.
pub open spec fn decimal_digits(n: nat) -> Seq<char>
    decreases n,
{
    if n < 10 {
        seq![digit_char(n)]
    } else {
        decimal_digits(n / 10) + seq![digit_char(n % 10)]
    }
}

/// A run of `w` zero characters.
pub open spec fn zero_run(w: nat) -> Seq<char>
    decreases w,
{
    if w == 0 {
        Seq::empty()
    } else {
        zero_run((w - 1) as nat) + seq!['0']
    }
}

/// `n` rendered in decimal and left-padded with zeros to width `w`
/// (wider renderings are kept whole).
pub open spec fn padded_decimal(n: nat, w: nat) -> Seq<char> {
    if decimal_digits(n).len() >= w {
        decimal_digits(n)
    } else {
        zero_run((w - decimal_digits(n).len()) as nat) + decimal_digits(n)
    }
}

fn digit_to_char(d: usize) -> (c: char)
    requires
        d < 10,
    ensures
        c == digit_char(d as nat),
{
    match d {
        0 => '0',
        1 => '1',
        2 => '2',
        3 => '3',
        4 => '4',
        5 => '5',
        6 => '6',
        7 => '7',
        8 => '8',
        _ => '9',
    }
}

/// The decimal digits of `n`, as characters.
pub fn decimal_chars(n: usize) -> (r: Vec<char>)
    ensures
        r@ == decimal_digits(n as nat),
    decreases n,
{
    if n < 10 {
        let mut v: Vec<char> = Vec::new();
        v.push(digit_to_char(n));
        proof {
            assert(v@ =~= decimal_digits(n as nat));
        }
        v
    } else {
        let mut v = decimal_chars(n / 10);
        v.push(digit_to_char(n % 10));
        proof {
            assert(v@ =~= decimal_digits(n as nat));
        }
        v
    }
}

/// How many characters the decimal rendering of `n` takes: the width used
/// to pad case indices so that generated names sort in declaration order.
pub fn display_len(n: usize) -> (w: usize)
    ensures
        w == decimal_digits(n as nat).len(),
{
    let v = decimal_chars(n);
    v.len()
}

/// `n` in decimal, zero-padded to width `w`.
pub fn padded_chars(n: usize, w: usize) -> (r: Vec<char>)
    ensures
        r@ == padded_decimal(n as nat, w as nat),
{
    let mut d = decimal_chars(n);
    let dl = d.len();
    let mut r: Vec<char> = Vec::new();
    if dl < w {
        let zeros = w - dl;
        let mut k: usize = 0;
        while k < zeros
            invariant
                k <= zeros,
                r@ == zero_run(k as nat),
            decreases zeros - k,
        {
            r.push('0');
            k = k + 1;
            proof {
                assert(r@ =~= zero_run(k as nat));
            }
        }
    }
    r.append(&mut d);
    proof {
        assert(r@ =~= padded_decimal(n as nat, w as nat));
    }
    r
}

/// The numeric value a digit character stands for.
pub open spec fn digit_val(c: char) -> nat {
    if c == '1' {
        1
    } else if c == '2' {
        2
    } else if c == '3' {
        3
    } else if c == '4' {
        4
    } else if c == '5' {
        5
    } else if c == '6' {
        6
    } else if c == '7' {
        7
    } else if c == '8' {
        8
    } else if c == '9' {
        9
    } else {
        0
    }
}

/// The value of a digit string read in decimal.
pub open spec fn chars_val(s: Seq<char>) -> nat
    decreases s.len(),
{
    if s.len() == 0 {
        0
    } else {
        chars_val(s.drop_last()) * 10 + digit_val(s.last())
    }
}

proof fn lemma_chars_val_decimal(n: nat)
    ensures
        chars_val(decimal_digits(n)) == n,
    decreases n,
{
    if n < 10 {
        assert(decimal_digits(n) == seq![digit_char(n)]);
        assert(decimal_digits(n).len() == 1);
        assert(decimal_digits(n).drop_last() =~= Seq::<char>::empty());
        assert(decimal_digits(n).last() == digit_char(n));
        assert(digit_val(digit_char(n)) == n);
        assert(chars_val(decimal_digits(n)) == chars_val(decimal_digits(n).drop_last()) * 10
            + digit_val(decimal_digits(n).last()));
        assert(chars_val(Seq::<char>::empty()) == 0);
    } else {
        lemma_chars_val_decimal(n / 10);
        assert(decimal_digits(n).drop_last() =~= decimal_digits(n / 10));
        assert(decimal_digits(n).last() == digit_char(n % 10));
        assert(digit_val(digit_char(n % 10)) == n % 10);
        vstd::arithmetic::div_mod::lemma_fundamental_div_mod(n as int, 10);
    }
}

proof fn lemma_chars_val_zero_run(k: nat)
    ensures
        chars_val(zero_run(k)) == 0,
    decreases k,
{
    if k > 0 {
        lemma_chars_val_zero_run((k - 1) as nat);
        assert(zero_run(k).drop_last() =~= zero_run((k - 1) as nat));
    }
}

proof fn lemma_chars_val_zero_prefix(k: nat, s: Seq<char>)
    ensures
        chars_val(zero_run(k) + s) == chars_val(s),
    decreases s.len(),
{
    if s.len() == 0 {
        assert(zero_run(k) + s =~= zero_run(k));
        lemma_chars_val_zero_run(k);
    } else {
        lemma_chars_val_zero_prefix(k, s.drop_last());
        assert((zero_run(k) + s).drop_last() =~= zero_run(k) + s.drop_last());
        assert((zero_run(k) + s).last() == s.last());
    }
}

/// The padded rendering still reads back as `n`: leading zeros change nothing.
pub proof fn lemma_chars_val_padded(n: nat, w: nat)
    ensures
        chars_val(padded_decimal(n, w)) == n,
{
    lemma_chars_val_decimal(n);
    if decimal_digits(n).len() < w {
        lemma_chars_val_zero_prefix((w - decimal_digits(n).len()) as nat, decimal_digits(n));
    }
}

/// Distinct numbers padded to one width render as distinct strings.
pub proof fn lemma_padded_injective(a: nat, b: nat, w: nat)
    requires
        padded_decimal(a, w) == padded_decimal(b, w),
    ensures
        a == b,
{
    lemma_chars_val_padded(a, w);
    lemma_chars_val_padded(b, w);
}

proof fn lemma_zero_run_len(k: nat)
    ensures
        zero_run(k).len() == k,
    decreases k,
{
    if k > 0 {
        lemma_zero_run_len((k - 1) as nat);
    }
}

/// Smaller numbers never take more digits.
pub proof fn lemma_decimal_len_monotonic(a: nat, b: nat)
    requires
        a <= b,
    ensures
        decimal_digits(a).len() <= decimal_digits(b).len(),
    decreases b,
{
    if b >= 10 && a >= 10 {
        lemma_decimal_len_monotonic(a / 10, b / 10);
    }
}

/// A rendering padded to at least its own width is exactly `w` wide.
pub proof fn lemma_padded_len(n: nat, w: nat)
    requires
        decimal_digits(n).len() <= w,
    ensures
        padded_decimal(n, w).len() == w,
{
    if decimal_digits(n).len() < w {
        lemma_zero_run_len((w - decimal_digits(n).len()) as nat);
    }
}

/// A character that may stand in a generated identifier: an ASCII letter,
/// an ASCII digit, or an underscore.
pub open spec fn ident_char(c: char) -> bool {
    c == '_' || (97 <= c as u32 && c as u32 <= 122) || (65 <= c as u32 && c as u32 <= 90) || (48
        <= c as u32 && c as u32 <= 57)
}

/// `s` with every character stripped that may not stand in an identifier.
pub open spec fn sanitized(s: Seq<char>) -> Seq<char>
    decreases s.len(),
{
    if s.len() == 0 {
        Seq::empty()
    } else if ident_char(s[0]) {
        seq![s[0]] + sanitized(s.drop_first())
    } else {
        sanitized(s.drop_first())
    }
}

/// The first `n` characters of `s`, or all of it when it is shorter.
pub open spec fn truncated(s: Seq<char>, n: nat) -> Seq<char> {
    if s.len() <= n {
        s
    } else {
        s.take(n as int)
    }
}

/// Relies on `String::push`: appends exactly one character at the end.
#[verifier::external_body]
pub(crate) fn push_char(s: &mut String, c: char)
    ensures
        final (s)@ == old(s)@.push(c),
{
    s.push(c);
}

fn is_ident_char(c: char) -> (b: bool)
    ensures
        b == ident_char(c),
{
    let u = c as u32;
    c == '_' || (97 <= u && u <= 122) || (65 <= u && u <= 90) || (48 <= u && u <= 57)
}

/// Strips every character of `s` that may not stand in an identifier.
pub fn sanitize_ident(s: &str) -> (r: String)
    ensures
        r@ == sanitized(s@),
{
    let n = s.unicode_len();
    let mut r = String::new();
    let mut i: usize = 0;
    proof {
        assert(s@.skip(0) =~= s@);
        assert(r@ + sanitized(s@) =~= sanitized(s@));
    }
    while i < n
        invariant
            n == s@.len(),
            i <= n,
            r@ + sanitized(s@.skip(i as int)) == sanitized(s@),
        decreases n - i,
    {
        let c = s.get_char(i);
        proof {
            assert(s@.skip(i as int)[0] == s@[i as int]);
            assert(s@.skip(i as int).drop_first() =~= s@.skip(i as int + 1));
        }
        if is_ident_char(c) {
            push_char(&mut r, c);
            proof {
                assert(r@ + sanitized(s@.skip(i as int + 1)) =~= sanitized(s@));
            }
        } else {
            proof {
                assert(r@ + sanitized(s@.skip(i as int + 1)) =~= sanitized(s@));
            }
        }
        i = i + 1;
    }
    proof {
        assert(s@.skip(n as int) =~= Seq::<char>::empty());
        assert(r@ + sanitized(s@.skip(n as int)) =~= r@);
    }
    r
}

/// The first `n` characters of `s`, or all of it when it is shorter:
/// bounds the length a long description adds to a generated name.
pub fn truncate_chars(s: &str, n: usize) -> (r: String)
    ensures
        r@ == truncated(s@, n as nat),
{
    let l = s.unicode_len();
    if l <= n {
        String::from_str(s)
    } else {
        let t = s.substring_char(0, n);
        proof {
            assert(s@.subrange(0, n as int) =~= s@.take(n as int));
        }
        String::from_str(t)
    }
}

/// Turns a run of characters into a `String`.
pub fn chars_to_string(v: &Vec<char>) -> (r: String)
    ensures
        r@ == v@,
{
    let mut r = String::new();
    let mut i: usize = 0;
    while i < v.len()
        invariant
            i <= v@.len(),
            r@ == v@.take(i as int),
        decreases v@.len() - i,
    {
        push_char(&mut r, v[i]);
        i = i + 1;
        proof {
            assert(r@ =~= v@.take(i as int));
        }
    }
    proof {
        assert(v@.take(v@.len() as int) =~= v@);
    }
    r
}

/// The name of explicit case number `index` (1-based), zero-padded to
/// `width`, with the case's description appended when it has one.
pub open spec fn case_name(index: nat, width: nat, desc: Option<Seq<char>>) -> Seq<char> {
    "case_"@ + padded_decimal(index, width) + (match desc {
        Some(d) => seq!['_'] + d,
        None => Seq::<char>::empty(),
    })
}

/// The name of a value-list case: the bound parameter, the 1-based value
/// index zero-padded to `width`, and the (sanitized, truncated) description.
pub open spec fn list_case_name(arg: Seq<char>, index: nat, width: nat, desc: Seq<char>) -> Seq<
    char,
> {
    arg + seq!['_'] + padded_decimal(index, width) + seq!['_'] + desc
}

/// Formats the name of one explicit case: `case_` plus the 1-based index
/// zero-padded to `display_len` digits, plus `_description` when the case
/// carries one.
pub fn format_case_name(case: &TestCase, index: usize, display_len: usize) -> (r: String)
    ensures
        r@ == case_name(index as nat, display_len as nat, opt_view(case.description)),
{
    let mut r = String::new();
    r.append("case_");
    let pad = padded_chars(index, display_len);
    let pads = chars_to_string(&pad);
    r.append(pads.as_str());
    match &case.description {
        Some(d) => {
            r.append("_");
            r.append(d.as_str());
            proof {
                reveal_strlit("_");
                assert(r@ =~= case_name(
                    index as nat,
                    display_len as nat,
                    opt_view(case.description),
                ));
            }
        },
        None => {
            proof {
                assert(r@ =~= case_name(
                    index as nat,
                    display_len as nat,
                    opt_view(case.description),
                ));
            }
        },
    }
    r
}

/// Formats the name of one value-list case from the already sanitized and
/// truncated description.
pub fn format_list_case_name(arg: &str, index: usize, width: usize, desc: &str) -> (r: String)
    ensures
        r@ == list_case_name(arg@, index as nat, width as nat, desc@),
{
    let mut r = String::from_str(arg);
    r.append("_");
    let pad = padded_chars(index, width);
    let pads = chars_to_string(&pad);
    r.append(pads.as_str());
    r.append("_");
    r.append(desc);
    proof {
        reveal_strlit("_");
        assert(r@ =~= list_case_name(arg@, index as nat, width as nat, desc@));
    }
    r
}

/// Value-list names with one argument and width are distinct for distinct
/// indices that fit the width, whatever the two descriptions are.
pub proof fn lemma_list_case_name_injective(
    arg: Seq<char>,
    i: nat,
    j: nat,
    w: nat,
    d1: Seq<char>,
    d2: Seq<char>,
)
    requires
        decimal_digits(i).len() <= w,
        decimal_digits(j).len() <= w,
        i != j,
    ensures
        list_case_name(arg, i, w, d1) != list_case_name(arg, j, w, d2),
{
    lemma_padded_len(i, w);
    lemma_padded_len(j, w);
    let al = arg.len() as int;
    let n1 = list_case_name(arg, i, w, d1);
    let n2 = list_case_name(arg, j, w, d2);
    if n1 == n2 {
        assert(n1.subrange(al + 1, al + 1 + w as int) =~= padded_decimal(i, w));
        assert(n2.subrange(al + 1, al + 1 + w as int) =~= padded_decimal(j, w));
        lemma_padded_injective(i, j, w);
        assert(false);
    }
}

/// Explicit-case names with one width are distinct for distinct indices that
/// fit the width, whatever the two descriptions are.
pub proof fn lemma_case_name_injective(
    i: nat,
    j: nat,
    w: nat,
    d1: Option<Seq<char>>,
    d2: Option<Seq<char>>,
)
    requires
        decimal_digits(i).len() <= w,
        decimal_digits(j).len() <= w,
        i != j,
    ensures
        case_name(i, w, d1) != case_name(j, w, d2),
{
    lemma_padded_len(i, w);
    lemma_padded_len(j, w);
    reveal_strlit("case_");
    let n1 = case_name(i, w, d1);
    let n2 = case_name(j, w, d2);
    if n1 == n2 {
        assert(n1.subrange(5, 5 + w as int) =~= padded_decimal(i, w));
        assert(n2.subrange(5, 5 + w as int) =~= padded_decimal(j, w));
        lemma_padded_injective(i, j, w);
        assert(false);
    }
}

} // verus!
