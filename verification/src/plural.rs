//! Counted nouns for human-readable summaries: `1 package`, `2 packages`.

use vstd::prelude::*;

verus! {

/// The decimal digits of `n`, most significant first.
pub open spec fn spec_decimal(n: nat) -> Seq<char>
    decreases n,
{
    if n < 10 {
        seq![spec_digit_char(n)]
    } else {
        spec_decimal(n / 10).push(spec_digit_char(n % 10))
    }
}

/// The character for a single decimal digit.
pub open spec fn spec_digit_char(d: nat) -> char {
    if d == 0 { '0' }
    else if d == 1 { '1' }
    else if d == 2 { '2' }
    else if d == 3 { '3' }
    else if d == 4 { '4' }
    else if d == 5 { '5' }
    else if d == 6 { '6' }
    else if d == 7 { '7' }
    else if d == 8 { '8' }
    else { '9' }
}

fn digit_str(d: u64) -> (r: &'static str)
    requires
        d < 10,
    ensures
        r@ == seq![spec_digit_char(d as nat)],
{
    proof {
        reveal_strlit("0");
        reveal_strlit("1");
        reveal_strlit("2");
        reveal_strlit("3");
        reveal_strlit("4");
        reveal_strlit("5");
        reveal_strlit("6");
        reveal_strlit("7");
        reveal_strlit("8");
        reveal_strlit("9");
    }
    if d == 0 { "0" }
    else if d == 1 { "1" }
    else if d == 2 { "2" }
    else if d == 3 { "3" }
    else if d == 4 { "4" }
    else if d == 5 { "5" }
    else if d == 6 { "6" }
    else if d == 7 { "7" }
    else if d == 8 { "8" }
    else { "9" }
}

/// Renders `n` in decimal.
pub fn decimal_string(n: usize) -> (r: String)
    ensures
        r@ == spec_decimal(n as nat),
    decreases n,
{
    let d: usize = n % 10;
    if n < 10 {
        String::from_str(digit_str(d as u64))
    } else {
        let mut s = decimal_string(n / 10);
        s.append(digit_str(d as u64));
        s
    }
}

/// A noun with a count in front: singular for a count of one, with a trailing
/// `s` otherwise.
pub trait Pluralize {
    /// What `plural` returns.
    spec fn spec_plural(&self, count: usize) -> Seq<char>;

    /// The counted noun, `"3 packages"` style.
    fn plural(&self, count: usize) -> (r: String)
        ensures
            r@ == self.spec_plural(count),
    ;
}

impl Pluralize for &'static str {
    open spec fn spec_plural(&self, count: usize) -> Seq<char> {
        if count == 1 {
            spec_decimal(count as nat) + " "@ + self@
        } else {
            spec_decimal(count as nat) + " "@ + self@ + "s"@
        }
    }

    fn plural(&self, count: usize) -> (r: String) {
        let mut s = decimal_string(count);
        s.append(" ");
        s.append(self);
        if count != 1 {
            s.append("s");
        }
        s
    }
}

} // verus!
