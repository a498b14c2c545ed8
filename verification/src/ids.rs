//! Request identifiers.
//!
//! Requests carry opaque string ids on the wire.  This library generates
//! them from a per-channel counter, rendered in decimal.  Rendering is
//! injective and parsing is its exact inverse, so a response id maps back to
//! at most one pending request.

use vstd::prelude::*;

use crate::codec::push_char;

verus! {

/// The decimal digit character for `d` (`d < 10`).
pub open spec fn dec_digit(d: int) -> char {
    if d == 0 {
        '0'
    } else if d == 1 {
        '1'
    } else if d == 2 {
        '2'
    } else if d == 3 {
        '3'
    } else if d == 4 {
        '4'
    } else if d == 5 {
        '5'
    } else if d == 6 {
        '6'
    } else if d == 7 {
        '7'
    } else if d == 8 {
        '8'
    } else {
        '9'
    }
}

/// The numeric value of a digit character, or 10 if it is not a digit.
pub open spec fn digit_val(c: char) -> int {
    if c == '0' {
        0
    } else if c == '1' {
        1
    } else if c == '2' {
        2
    } else if c == '3' {
        3
    } else if c == '4' {
        4
    } else if c == '5' {
        5
    } else if c == '6' {
        6
    } else if c == '7' {
        7
    } else if c == '8' {
        8
    } else if c == '9' {
        9
    } else {
        10
    }
}

/// The decimal rendering of a nonnegative integer.
pub open spec fn dec_str(n: int) -> Seq<char>
    decreases n,
{
    if n < 10 {
        seq![dec_digit(n)]
    } else {
        dec_str(n / 10).push(dec_digit(n % 10))
    }
}

/// The numeric value of a digit string.
pub open spec fn dec_val(s: Seq<char>) -> int
    decreases s.len(),
{
    if s.len() == 0 {
        0
    } else {
        dec_val(s.drop_last()) * 10 + digit_val(s.last())
    }
}

/// A canonical decimal string: nonempty, digits only, no leading zero
/// (except for the single digit zero itself).
pub open spec fn dec_canonical(s: Seq<char>) -> bool {
    &&& s.len() > 0
    &&& forall|i: int| 0 <= i < s.len() ==> digit_val(#[trigger] s[i]) < 10
    &&& (s.len() > 1 ==> s[0] != '0')
}

/// Every rendering is nonempty, and at least two digits from ten up.
proof fn lemma_dec_str_len(n: int)
    requires
        n >= 0,
    ensures
        dec_str(n).len() >= 1,
        n >= 10 ==> dec_str(n).len() >= 2,
    decreases n,
{
    if n >= 10 {
        lemma_dec_str_len(n / 10);
    }
}

/// Parsing inverts rendering.
pub proof fn lemma_val_of_dec_str(n: int)
    requires
        n >= 0,
    ensures
        dec_val(dec_str(n)) == n,
    decreases n,
{
    if n < 10 {
        assert(dec_str(n) == seq![dec_digit(n)]);
        assert(dec_str(n).drop_last() =~= Seq::<char>::empty());
        assert(digit_val(dec_digit(n)) == n);
        assert(dec_val(dec_str(n)) == dec_val(dec_str(n).drop_last()) * 10 + digit_val(
            dec_str(n).last(),
        ));
        assert(dec_val(Seq::<char>::empty()) == 0);
        assert(dec_str(n).last() == dec_digit(n));
    } else {
        lemma_val_of_dec_str(n / 10);
        assert(dec_str(n).drop_last() =~= dec_str(n / 10));
        assert(dec_str(n).last() == dec_digit(n % 10));
        assert(digit_val(dec_digit(n % 10)) == n % 10);
        assert(dec_val(dec_str(n)) == dec_val(dec_str(n / 10)) * 10 + digit_val(
            dec_digit(n % 10),
        ));
        vstd::arithmetic::div_mod::lemma_fundamental_div_mod(n, 10);
    }
}

/// Rendering is injective.
pub proof fn lemma_dec_str_injective(a: int, b: int)
    requires
        a >= 0,
        b >= 0,
        dec_str(a) == dec_str(b),
    ensures
        a == b,
{
    lemma_val_of_dec_str(a);
    lemma_val_of_dec_str(b);
}

/// Every rendering is canonical.
pub proof fn lemma_dec_str_canonical(n: int)
    requires
        n >= 0,
    ensures
        dec_canonical(dec_str(n)),
    decreases n,
{
    if n < 10 {
        assert(digit_val(dec_str(n)[0]) < 10);
    } else {
        lemma_dec_str_canonical(n / 10);
        let p = dec_str(n / 10);
        assert(dec_str(n) == p.push(dec_digit(n % 10)));
        assert(digit_val(dec_digit(n % 10)) < 10);
        assert(forall|i: int|
            0 <= i < p.len() ==> digit_val(#[trigger] dec_str(n)[i]) < 10);
        assert(dec_str(n)[0] == p[0]);
        assert(n / 10 >= 1);
        if p.len() == 1 {
            lemma_dec_str_len(n / 10);
            assert(n / 10 < 10);
            assert(p[0] == dec_digit(n / 10));
            assert(p[0] != '0');
        }
    }
}

/// A canonical digit string is the rendering of its own value.
proof fn lemma_canonical_round_trip(s: Seq<char>)
    requires
        dec_canonical(s),
    ensures
        dec_val(s) >= 0,
        dec_str(dec_val(s)) == s,
        s.len() > 1 ==> dec_val(s) >= 10,
    decreases s.len(),
{
    let d = s.last();
    let p = s.drop_last();
    assert(digit_val(d) < 10);
    if s.len() == 1 {
        assert(dec_val(p) == 0);
        assert(dec_val(s) == digit_val(d));
        assert(dec_digit(digit_val(d)) == d);
        assert(dec_str(dec_val(s)) =~= s);
    } else {
        assert(p.len() > 0);
        assert(p[0] == s[0]);
        assert(forall|i: int| 0 <= i < p.len() ==> digit_val(#[trigger] p[i]) < 10) by {
            assert(forall|i: int| 0 <= i < p.len() ==> p[i] == #[trigger] s[i]);
        }
        assert(dec_canonical(p));
        lemma_canonical_round_trip(p);
        let v = dec_val(s);
        assert(dec_val(p) >= 1) by {
            if dec_val(p) == 0 {
                assert(dec_str(0) =~= seq!['0']);
                assert(p =~= seq!['0']);
            }
        }
        assert(v == dec_val(p) * 10 + digit_val(d));
        assert(v >= 10);
        assert(v / 10 == dec_val(p) && v % 10 == digit_val(d)) by {
            assert(0 <= digit_val(d) < 10);
        }
        assert(dec_str(v) == dec_str(dec_val(p)).push(dec_digit(digit_val(d))));
        assert(dec_digit(digit_val(d)) == d);
        assert(p.push(d) =~= s);
    }
}

/// The digit character for `d` (`d < 10`).
fn digit_char(d: u64) -> (r: char)
    requires
        d < 10,
    ensures
        r == dec_digit(d as int),
{
    if d == 0 {
        '0'
    } else if d == 1 {
        '1'
    } else if d == 2 {
        '2'
    } else if d == 3 {
        '3'
    } else if d == 4 {
        '4'
    } else if d == 5 {
        '5'
    } else if d == 6 {
        '6'
    } else if d == 7 {
        '7'
    } else if d == 8 {
        '8'
    } else {
        '9'
    }
}

/// Render an id counter as its decimal string.
pub fn render_id(n: u64) -> (r: String)
    ensures
        r@ == dec_str(n as int),
    decreases n,
{
    if n < 10 {
        let mut s = String::new();
        push_char(&mut s, digit_char(n));
        proof {
            assert(s@ =~= seq![dec_digit(n as int)]);
        }
        s
    } else {
        let mut s = render_id(n / 10);
        push_char(&mut s, digit_char(n % 10));
        s
    }
}

/// Parse a wire id string back into a counter value.  Returns `Some(n)`
/// exactly when the string is the decimal rendering of `n`; any other
/// string (empty, non-digits, leading zero, too large) maps to no counter
/// at all.
pub fn parse_id(s: &str) -> (r: Option<u64>)
    ensures
        match r {
            Some(n) => s@ == dec_str(n as int),
            None => forall|n: u64| s@ != dec_str(n as int),
        },
{
    let n = s.unicode_len();
    if n == 0 {
        proof {
            assert forall|m: u64| s@ != dec_str(m as int) by {
                lemma_dec_str_canonical(m as int);
            }
        }
        return None;
    }
    let first = s.get_char(0);
    if n > 1 && first == '0' {
        proof {
            assert forall|m: u64| s@ != dec_str(m as int) by {
                lemma_dec_str_canonical(m as int);
            }
        }
        return None;
    }
    let mut acc: u64 = 0;
    let mut i: usize = 0;
    while i < n
        invariant
            n == s@.len(),
            n > 0,
            i <= n,
            acc as int == dec_val(s@.subrange(0, i as int)),
            forall|j: int| 0 <= j < i ==> digit_val(#[trigger] s@[j]) < 10,
        decreases n - i,
    {
        let c = s.get_char(i);
        let d: u64 = if c == '0' {
            0
        } else if c == '1' {
            1
        } else if c == '2' {
            2
        } else if c == '3' {
            3
        } else if c == '4' {
            4
        } else if c == '5' {
            5
        } else if c == '6' {
            6
        } else if c == '7' {
            7
        } else if c == '8' {
            8
        } else if c == '9' {
            9
        } else {
            proof {
                assert(digit_val(s@[i as int]) == 10);
                assert forall|m: u64| s@ != dec_str(m as int) by {
                    lemma_dec_str_canonical(m as int);
                }
            }
            return None;
        };
        proof {
            assert(digit_val(s@[i as int]) == d);
        }
        if acc > (u64::MAX - d) / 10 {
            proof {
                assert forall|m: u64| s@ != dec_str(m as int) by {
                    if s@ == dec_str(m as int) {
                        lemma_dec_str_canonical(m as int);
                        lemma_val_of_dec_str(m as int);
                        lemma_prefix_val_bound(s@, i as int + 1);
                        assert(dec_val(s@.subrange(0, i as int + 1)) == acc * 10 + d) by {
                            assert(s@.subrange(0, i as int + 1).drop_last() =~= s@.subrange(
                                0,
                                i as int,
                            ));
                            assert(s@.subrange(0, i as int + 1).last() == s@[i as int]);
                        }
                        assert(acc * 10 + d > u64::MAX as int) by {
                            assert(acc > (u64::MAX - d) / 10);
                            assert(acc >= (u64::MAX - d) / 10 + 1);
                        }
                    }
                }
            }
            return None;
        }
        proof {
            assert(acc * 10 + d <= u64::MAX as int) by {
                assert(acc <= (u64::MAX - d) / 10);
            }
            assert(dec_val(s@.subrange(0, i as int + 1)) == acc * 10 + d) by {
                assert(s@.subrange(0, i as int + 1).drop_last() =~= s@.subrange(0, i as int));
                assert(s@.subrange(0, i as int + 1).last() == s@[i as int]);
            }
        }
        acc = acc * 10 + d;
        i = i + 1;
    }
    proof {
        assert(s@.subrange(0, n as int) =~= s@);
        assert(dec_canonical(s@));
        lemma_canonical_round_trip(s@);
    }
    Some(acc)
}

/// The value of a digit string is monotone in its prefixes: once a prefix's
/// value is known, the whole string's value is at least as large.
proof fn lemma_prefix_val_bound(s: Seq<char>, i: int)
    requires
        0 <= i <= s.len(),
        forall|j: int| 0 <= j < s.len() ==> digit_val(#[trigger] s[j]) < 10,
        forall|j: int| 0 <= j < s.len() ==> digit_val(#[trigger] s[j]) >= 0,
    ensures
        dec_val(s) >= dec_val(s.subrange(0, i)),
    decreases s.len() - i,
{
    if i == s.len() {
        assert(s.subrange(0, i) =~= s);
    } else {
        lemma_prefix_val_bound(s, i + 1);
        let a = s.subrange(0, i);
        let b = s.subrange(0, i + 1);
        assert(b.drop_last() =~= a);
        assert(digit_val(b.last()) >= 0);
        assert(dec_val(a) >= 0 ==> dec_val(b) >= dec_val(a)) by {
            assert(dec_val(b) == dec_val(a) * 10 + digit_val(b.last()));
        }
        lemma_val_nonneg(a);
    }
}

/// A digit string's value is nonnegative.
proof fn lemma_val_nonneg(s: Seq<char>)
    requires
        forall|j: int| 0 <= j < s.len() ==> digit_val(#[trigger] s[j]) >= 0,
    ensures
        dec_val(s) >= 0,
    decreases s.len(),
{
    if s.len() > 0 {
        assert(forall|j: int| 0 <= j < s.drop_last().len() ==> digit_val(
            #[trigger] s.drop_last()[j],
        ) >= 0) by {
            assert(forall|j: int|
                0 <= j < s.drop_last().len() ==> s.drop_last()[j] == #[trigger] s[j]);
        }
        lemma_val_nonneg(s.drop_last());
    }
}

} // verus!
