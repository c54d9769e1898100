//! Text helpers.

use vstd::prelude::*;

verus! {

/// Whether a string is a given text.
pub(crate) fn is_text(a: &String, b: &str) -> (r: bool)
    ensures
        r == (a@ == b@),
{
    *a == b.to_owned()
}

/// A decimal digit.
pub open spec fn digit(d: nat) -> Seq<char> {
    if d == 0 {
        "0"@
    } else if d == 1 {
        "1"@
    } else if d == 2 {
        "2"@
    } else if d == 3 {
        "3"@
    } else if d == 4 {
        "4"@
    } else if d == 5 {
        "5"@
    } else if d == 6 {
        "6"@
    } else if d == 7 {
        "7"@
    } else if d == 8 {
        "8"@
    } else {
        "9"@
    }
}

/// A number in decimal.
pub open spec fn decimal(n: nat) -> Seq<char>
    decreases n,
{
    if n < 10 {
        digit(n)
    } else {
        decimal(n / 10) + digit(n % 10)
    }
}

/// An integer in decimal, with a sign in front where it is negative.
pub open spec fn signed_decimal(n: int) -> Seq<char> {
    if n < 0 {
        "-"@ + decimal((-n) as nat)
    } else {
        decimal(n as nat)
    }
}

/// A decimal digit.
fn write_digit(d: u64) -> (r: &'static str)
    requires
        d < 10,
    ensures
        r@ == digit(d as nat),
{
    match d {
        0 => "0",
        1 => "1",
        2 => "2",
        3 => "3",
        4 => "4",
        5 => "5",
        6 => "6",
        7 => "7",
        8 => "8",
        _ => "9",
    }
}

/// Writes a number in decimal.
pub(crate) fn write_decimal(n: u64) -> (r: String)
    ensures
        r@ == decimal(n as nat),
    decreases n,
{
    if n < 10 {
        write_digit(n).to_owned()
    } else {
        write_decimal(n / 10).concat(write_digit(n % 10))
    }
}

/// Writes an integer in decimal, with a sign in front where it is negative.
pub(crate) fn write_signed_decimal(n: i64) -> (r: String)
    ensures
        r@ == signed_decimal(n as int),
{
    if n == i64::MIN {
        let magnitude: u64 = 0x8000_0000_0000_0000;
        "-".to_owned().concat(write_decimal(magnitude).as_str())
    } else if n < 0 {
        let magnitude: u64 = (-n) as u64;
        "-".to_owned().concat(write_decimal(magnitude).as_str())
    } else {
        write_decimal(n as u64)
    }
}

/// Two texts compare from a position on: the first character that differs decides, and a
/// text comes after its own beginnings.
pub open spec fn precedes_from(a: Seq<char>, b: Seq<char>, i: int) -> bool
    decreases b.len() - i,
{
    if i >= b.len() {
        false
    } else if i >= a.len() {
        true
    } else if a[i] == b[i] {
        precedes_from(a, b, i + 1)
    } else {
        (a[i] as int) < (b[i] as int)
    }
}

/// A text comes before another in the order of strings.
pub open spec fn precedes(a: Seq<char>, b: Seq<char>) -> bool {
    precedes_from(a, b, 0)
}

/// The order of strings is transitive.
pub(crate) proof fn lemma_precedes_transitive(a: Seq<char>, b: Seq<char>, c: Seq<char>, i: int)
    requires
        precedes_from(a, b, i),
        precedes_from(b, c, i),
    ensures
        precedes_from(a, c, i),
    decreases b.len() - i,
{
    if i < a.len() && i < b.len() && i < c.len() && a[i] == b[i] && b[i] == c[i] {
        lemma_precedes_transitive(a, b, c, i + 1);
    }
}

/// No text comes before itself.
pub(crate) proof fn lemma_precedes_irreflexive(a: Seq<char>, i: int)
    ensures
        !precedes_from(a, a, i),
    decreases a.len() - i,
{
    if i < a.len() {
        lemma_precedes_irreflexive(a, i + 1);
    }
}

/// Of two different texts one comes before the other.
pub(crate) proof fn lemma_precedes_total(a: Seq<char>, b: Seq<char>, i: int)
    requires
        0 <= i <= a.len(),
        i <= b.len(),
        forall|k: int| 0 <= k < i ==> a[k] == b[k],
        !precedes_from(a, b, i),
        !precedes_from(b, a, i),
    ensures
        a == b,
    decreases b.len() - i,
{
    if i < a.len() && i < b.len() {
        lemma_precedes_total(a, b, i + 1);
    } else {
        assert(a =~= b);
    }
}

/// Whether a text comes before another in the order of strings.
pub(crate) fn comes_before(a: &String, b: &String) -> (r: bool)
    ensures
        r == precedes(a@, b@),
{
    let left = a.as_str();
    let right = b.as_str();
    let a_len = left.unicode_len();
    let b_len = right.unicode_len();
    let mut i: usize = 0;
    while i < b_len
        invariant
            i <= b_len,
            left@ == a@,
            right@ == b@,
            a_len == a@.len(),
            b_len == b@.len(),
            i <= a_len,
            precedes(a@, b@) == precedes_from(a@, b@, i as int),
        decreases b_len - i,
    {
        if i >= a_len {
            return true;
        }
        let x = left.get_char(i);
        let y = right.get_char(i);
        if x != y {
            return (x as u32) < (y as u32);
        }
        i = i + 1;
    }
    false
}

} // verus!
