//! Natural ordering of names: runs of digits compare by their numeric value,
//! everything else compares character by character, ignoring ASCII case.
//! So "ep2" comes before "ep10".

use vstd::prelude::*;
use std::cmp::Ordering;

use crate::text::{ascii_lower, char_ascii_lower, chars_of, decimal, digit_char, lower_seq, texts};

verus! {

/// The outcome of a three-way comparison.
#[derive(Clone, Copy, Debug, PartialEq, Eq, Structural)]
pub enum Order {
    Less,
    Equal,
    Greater,
}

impl Order {
    /// The same comparison seen from the other side.
    pub open spec fn reversed(self) -> Order {
        match self {
            Order::Less => Order::Greater,
            Order::Equal => Order::Equal,
            Order::Greater => Order::Less,
        }
    }
}

/// An ASCII digit, '0' to '9'.
pub open spec fn is_digit(c: char) -> bool {
    '0' <= c && c <= '9'
}

/// The value of an ASCII digit.
pub open spec fn digit_value(c: char) -> int {
    (c as int) - ('0' as int)
}

/// How many digits `s` starts with.
pub open spec fn digit_run(s: Seq<char>) -> nat
    decreases s.len(),
{
    if s.len() > 0 && is_digit(s[0]) {
        1 + digit_run(s.skip(1))
    } else {
        0
    }
}

/// The value of the first `k` characters of `s` read as a decimal number,
/// saturating at `u64::MAX` rather than overflowing.
pub open spec fn run_value(s: Seq<char>, k: nat) -> int
    decreases k,
{
    if k == 0 {
        0
    } else {
        let v = 10 * run_value(s, (k - 1) as nat) + digit_value(s[k - 1]);
        if v > u64::MAX {
            u64::MAX as int
        } else {
            v
        }
    }
}

pub proof fn lemma_digit_run_bounds(s: Seq<char>)
    ensures
        digit_run(s) <= s.len(),
        s.len() > 0 && is_digit(s[0]) ==> digit_run(s) >= 1,
        forall|i: int| 0 <= i < digit_run(s) ==> is_digit(#[trigger] s[i]),
        digit_run(s) < s.len() ==> !is_digit(s[digit_run(s) as int]),
    decreases s.len(),
{
    if s.len() > 0 && is_digit(s[0]) {
        lemma_digit_run_bounds(s.skip(1));
        assert forall|i: int| 0 <= i < digit_run(s) implies is_digit(#[trigger] s[i]) by {
            if i > 0 {
                assert(s.skip(1)[i - 1] == s[i]);
            }
        }
    }
}

/// A prefix of `k` digits followed by the end or a non-digit is the whole run.
pub proof fn lemma_digit_run_exact(s: Seq<char>, k: nat)
    requires
        k <= s.len(),
        forall|i: int| 0 <= i < k ==> is_digit(#[trigger] s[i]),
        k < s.len() ==> !is_digit(s[k as int]),
    ensures
        digit_run(s) == k,
    decreases k,
{
    if k > 0 {
        let t = s.skip(1);
        assert forall|i: int| 0 <= i < k - 1 implies is_digit(#[trigger] t[i]) by {
            assert(t[i] == s[i + 1]);
        }
        if k - 1 < t.len() {
            assert(t[k - 1] == s[k as int]);
        }
        lemma_digit_run_exact(t, (k - 1) as nat);
    }
}

/// The natural order of two names.
pub open spec fn natural_order(a: Seq<char>, b: Seq<char>) -> Order
    decreases a.len() + b.len(),
{
    if a.len() == 0 && b.len() == 0 {
        Order::Equal
    } else if a.len() == 0 {
        Order::Less
    } else if b.len() == 0 {
        Order::Greater
    } else if is_digit(a[0]) && is_digit(b[0]) {
        let ka = digit_run(a);
        let kb = digit_run(b);
        let va = run_value(a, ka);
        let vb = run_value(b, kb);
        if va < vb {
            Order::Less
        } else if va > vb {
            Order::Greater
        } else {
            proof {
                lemma_digit_run_bounds(a);
                lemma_digit_run_bounds(b);
            }
            natural_order(a.skip(ka as int), b.skip(kb as int))
        }
    } else {
        let x = ascii_lower(a[0]);
        let y = ascii_lower(b[0]);
        if x < y {
            Order::Less
        } else if x > y {
            Order::Greater
        } else {
            natural_order(a.skip(1), b.skip(1))
        }
    }
}

/// Whether `c` is an ASCII digit.
pub fn char_is_digit(c: char) -> (r: bool)
    ensures
        r == is_digit(c),
{
    '0' <= c && c <= '9'
}

/// The value of the ASCII digit `c`.
pub fn char_digit_value(c: char) -> (r: u64)
    requires
        is_digit(c),
    ensures
        r == digit_value(c),
{
    (c as u32 - '0' as u32) as u64
}

/// Reads the digit run of `s` that starts at `start`: its value, saturating at
/// `u64::MAX`, and where it ends.
fn read_run(s: &Vec<char>, start: usize) -> (r: (u64, usize))
    requires
        start < s@.len(),
        is_digit(s@[start as int]),
    ensures
        r.1 == start + digit_run(s@.skip(start as int)),
        r.0 == run_value(s@.skip(start as int), digit_run(s@.skip(start as int))),
{
    let ghost t = s@.skip(start as int);
    let mut v: u64 = 0;
    let mut k: usize = start;
    while k < s.len() && char_is_digit(s[k])
        invariant
            start <= k <= s@.len(),
            t == s@.skip(start as int),
            forall|i: int| 0 <= i < k - start ==> is_digit(#[trigger] t[i]),
            v == run_value(t, (k - start) as nat),
        decreases s@.len() - k,
    {
        let d = char_digit_value(s[k]);
        assert(t[(k - start) as int] == s@[k as int]);
        let w = v.checked_mul(10);
        let nv: u64 = match w {
            Some(m) => m.saturating_add(d),
            None => u64::MAX,
        };
        proof {
            let n = (k - start + 1) as nat;
            assert(run_value(t, n) == if 10 * v + d > u64::MAX { u64::MAX as int } else { 10 * v + d });
        }
        v = nv;
        k = k + 1;
    }
    proof {
        if k < s@.len() {
            assert(t[(k - start) as int] == s@[k as int]);
        }
        lemma_digit_run_exact(t, (k - start) as nat);
    }
    (v, k)
}

/// The natural order of two character sequences.
pub fn natural_order_of(a: &Vec<char>, b: &Vec<char>) -> (r: Order)
    ensures
        r == natural_order(a@, b@),
{
    let mut i: usize = 0;
    let mut j: usize = 0;
    assert(a@.skip(0) =~= a@);
    assert(b@.skip(0) =~= b@);
    loop
        invariant
            i <= a@.len(),
            j <= b@.len(),
            natural_order(a@, b@) == natural_order(a@.skip(i as int), b@.skip(j as int)),
        decreases a@.len() - i + b@.len() - j,
    {
        let ghost sa = a@.skip(i as int);
        let ghost sb = b@.skip(j as int);
        if i == a.len() && j == b.len() {
            return Order::Equal;
        } else if i == a.len() {
            return Order::Less;
        } else if j == b.len() {
            return Order::Greater;
        }
        let x = a[i];
        let y = b[j];
        assert(sa[0] == x);
        assert(sb[0] == y);
        if char_is_digit(x) && char_is_digit(y) {
            let (nx, ei) = read_run(a, i);
            let (ny, ej) = read_run(b, j);
            if nx < ny {
                return Order::Less;
            } else if nx > ny {
                return Order::Greater;
            }
            proof {
                lemma_digit_run_bounds(sa);
                lemma_digit_run_bounds(sb);
                assert(sa.skip(digit_run(sa) as int) =~= a@.skip(ei as int));
                assert(sb.skip(digit_run(sb) as int) =~= b@.skip(ej as int));
            }
            i = ei;
            j = ej;
        } else {
            let lx = char_ascii_lower(x);
            let ly = char_ascii_lower(y);
            if lx < ly {
                return Order::Less;
            } else if lx > ly {
                return Order::Greater;
            }
            assert(sa.skip(1) =~= a@.skip(i + 1));
            assert(sb.skip(1) =~= b@.skip(j + 1));
            i = i + 1;
            j = j + 1;
        }
    }
}

/// The standard library's ordering for an `Order`.
pub open spec fn ordering_of(o: Order) -> Ordering {
    match o {
        Order::Less => Ordering::Less,
        Order::Equal => Ordering::Equal,
        Order::Greater => Ordering::Greater,
    }
}

/// Compares two names naturally: "ep2" before "ep10", case ignored for
/// ASCII letters.
pub fn natural_cmp(a: &str, b: &str) -> (r: Ordering)
    ensures
        r == ordering_of(natural_order(a@, b@)),
{
    let x = chars_of(a);
    let y = chars_of(b);
    match natural_order_of(&x, &y) {
        Order::Less => Ordering::Less,
        Order::Equal => Ordering::Equal,
        Order::Greater => Ordering::Greater,
    }
}

/// Every name is naturally equal to itself.
pub proof fn lemma_natural_reflexive(a: Seq<char>)
    ensures
        natural_order(a, a) == Order::Equal,
    decreases a.len(),
{
    if a.len() > 0 {
        lemma_digit_run_bounds(a);
        if is_digit(a[0]) {
            lemma_natural_reflexive(a.skip(digit_run(a) as int));
        } else {
            lemma_natural_reflexive(a.skip(1));
        }
    }
}

/// Swapping the two names reverses the comparison.
pub proof fn lemma_natural_antisymmetric(a: Seq<char>, b: Seq<char>)
    ensures
        natural_order(b, a) == natural_order(a, b).reversed(),
    decreases a.len() + b.len(),
{
    if a.len() > 0 && b.len() > 0 {
        lemma_digit_run_bounds(a);
        lemma_digit_run_bounds(b);
        if is_digit(a[0]) && is_digit(b[0]) {
            lemma_natural_antisymmetric(a.skip(digit_run(a) as int), b.skip(digit_run(b) as int));
        } else {
            lemma_natural_antisymmetric(a.skip(1), b.skip(1));
        }
    }
}

/// Natural order is a total preorder: it chains, and a strict step anywhere
/// in the chain makes the whole chain strict. This is what sorting with it
/// relies on.
pub proof fn lemma_natural_transitive(a: Seq<char>, b: Seq<char>, c: Seq<char>)
    requires
        natural_order(a, b) != Order::Greater,
        natural_order(b, c) != Order::Greater,
    ensures
        natural_order(a, c) != Order::Greater,
        natural_order(a, b) == Order::Less || natural_order(b, c) == Order::Less
            ==> natural_order(a, c) == Order::Less,
    decreases a.len() + b.len() + c.len(),
{
    if a.len() > 0 && b.len() > 0 && c.len() > 0 {
        lemma_digit_run_bounds(a);
        lemma_digit_run_bounds(b);
        lemma_digit_run_bounds(c);
        if is_digit(a[0]) && is_digit(b[0]) && is_digit(c[0]) {
            let ka = digit_run(a) as int;
            let kb = digit_run(b) as int;
            let kc = digit_run(c) as int;
            if run_value(a, digit_run(a)) == run_value(b, digit_run(b))
                && run_value(b, digit_run(b)) == run_value(c, digit_run(c)) {
                lemma_natural_transitive(a.skip(ka), b.skip(kb), c.skip(kc));
            }
        } else if !is_digit(a[0]) && !is_digit(b[0]) && !is_digit(c[0]) {
            if ascii_lower(a[0]) == ascii_lower(b[0]) && ascii_lower(b[0]) == ascii_lower(c[0]) {
                lemma_natural_transitive(a.skip(1), b.skip(1), c.skip(1));
            }
        }
    }
}

/// Lowering ASCII letters leaves digits alone, and lowering twice is
/// lowering once.
proof fn lemma_lower_char(c: char)
    ensures
        is_digit(ascii_lower(c)) == is_digit(c),
        is_digit(c) ==> ascii_lower(c) == c,
        ascii_lower(ascii_lower(c)) == ascii_lower(c),
{
}

/// Lowering a name keeps its digit runs, digit for digit.
proof fn lemma_lower_keeps_runs(a: Seq<char>)
    ensures
        digit_run(lower_seq(a)) == digit_run(a),
        forall|k: nat| k <= digit_run(a) ==> #[trigger] run_value(lower_seq(a), k) == run_value(a, k),
    decreases a.len(),
{
    let l = lower_seq(a);
    if a.len() > 0 {
        lemma_lower_char(a[0]);
        assert(l.skip(1) =~= lower_seq(a.skip(1)));
        lemma_lower_keeps_runs(a.skip(1));
    }
    lemma_digit_run_bounds(a);
    assert forall|k: nat| k <= digit_run(a) implies #[trigger] run_value(l, k) == run_value(a, k) by {
        lemma_run_value_same_digits(l, a, k);
    }
}

/// The value of the first `k` characters depends on those characters alone,
/// and lowering leaves digits as they are.
proof fn lemma_run_value_same_digits(l: Seq<char>, a: Seq<char>, k: nat)
    requires
        l == lower_seq(a),
        k <= digit_run(a),
    ensures
        run_value(l, k) == run_value(a, k),
    decreases k,
{
    lemma_digit_run_bounds(a);
    if k > 0 {
        lemma_run_value_same_digits(l, a, (k - 1) as nat);
        lemma_lower_char(a[k - 1]);
    }
}

/// Natural order ignores ASCII case: two names compare as their lowered
/// forms do, so "EP2.MKV" and "ep2.mkv" are equal.
pub proof fn lemma_natural_ignores_case(a: Seq<char>, b: Seq<char>)
    ensures
        natural_order(a, b) == natural_order(lower_seq(a), lower_seq(b)),
    decreases a.len() + b.len(),
{
    let la = lower_seq(a);
    let lb = lower_seq(b);
    if a.len() > 0 && b.len() > 0 {
        lemma_lower_char(a[0]);
        lemma_lower_char(b[0]);
        lemma_digit_run_bounds(a);
        lemma_digit_run_bounds(b);
        if is_digit(a[0]) && is_digit(b[0]) {
            lemma_lower_keeps_runs(a);
            lemma_lower_keeps_runs(b);
            let ka = digit_run(a) as int;
            let kb = digit_run(b) as int;
            assert(la.skip(ka) =~= lower_seq(a.skip(ka)));
            assert(lb.skip(kb) =~= lower_seq(b.skip(kb)));
            lemma_natural_ignores_case(a.skip(ka), b.skip(kb));
        } else {
            assert(la.skip(1) =~= lower_seq(a.skip(1)));
            assert(lb.skip(1) =~= lower_seq(b.skip(1)));
            lemma_natural_ignores_case(a.skip(1), b.skip(1));
        }
    }
}

/// The order of two numbers.
pub open spec fn order_of_numbers(m: int, n: int) -> Order {
    if m < n {
        Order::Less
    } else if m > n {
        Order::Greater
    } else {
        Order::Equal
    }
}

/// A number written in decimal is a non-empty run of digits.
proof fn lemma_decimal_digits(n: nat)
    ensures
        decimal(n).len() >= 1,
        forall|i: int| 0 <= i < decimal(n).len() ==> is_digit(#[trigger] decimal(n)[i]),
    decreases n,
{
    if n >= 10 {
        lemma_decimal_digits(n / 10);
        let d = decimal(n / 10);
        assert forall|i: int| 0 <= i < decimal(n).len() implies is_digit(#[trigger] decimal(n)[i]) by {
            if i < d.len() {
                assert(decimal(n)[i] == d[i]);
            }
        }
    }
}

/// The value of a run depends on its characters alone.
proof fn lemma_run_value_prefix(x: Seq<char>, y: Seq<char>, k: nat)
    requires
        k <= x.len(),
        k <= y.len(),
        forall|i: int| 0 <= i < k ==> x[i] == y[i],
    ensures
        run_value(x, k) == run_value(y, k),
    decreases k,
{
    if k > 0 {
        lemma_run_value_prefix(x, y, (k - 1) as nat);
        assert(x[k - 1] == y[k - 1]);
    }
}

/// A number written in decimal reads back as itself.
proof fn lemma_decimal_value(n: nat)
    requires
        n <= u64::MAX,
    ensures
        run_value(decimal(n), decimal(n).len()) == n,
    decreases n,
{
    lemma_decimal_digits(n);
    if n >= 10 {
        let d = decimal(n / 10);
        let e = decimal(n);
        lemma_decimal_value(n / 10);
        lemma_decimal_digits(n / 10);
        assert(e.len() == d.len() + 1);
        lemma_run_value_prefix(e, d, d.len());
        assert(e[d.len() as int] == digit_char((n % 10) as int));
        lemma_digit_char((n % 10) as int);
        assert(n == 10 * (n / 10) + n % 10);
        assert(run_value(e, d.len()) == n / 10);
        assert(run_value(e, e.len()) == n);
    } else {
        lemma_digit_char(n as int);
        assert(decimal(n)[0] == digit_char(n as int));
        assert(run_value(decimal(n), 0) == 0);
    }
}

/// A digit written out is a digit of that value.
proof fn lemma_digit_char(d: int)
    requires
        0 <= d <= 9,
    ensures
        is_digit(digit_char(d)),
        digit_value(digit_char(d)) == d,
{
    assert(digit_char(d) as int == '0' as int + d);
}

/// A digit run that a number's decimal form and a text not opening with a
/// digit make: its length is the number's, and its value the number.
proof fn lemma_number_then_text(m: nat, t: Seq<char>)
    requires
        m <= u64::MAX,
        t.len() == 0 || !is_digit(t[0]),
    ensures
        digit_run(decimal(m) + t) == decimal(m).len(),
        run_value(decimal(m) + t, decimal(m).len()) == m,
        (decimal(m) + t).skip(decimal(m).len() as int) == t,
{
    let d = decimal(m);
    let a = d + t;
    lemma_decimal_digits(m);
    lemma_decimal_value(m);
    assert forall|i: int| 0 <= i < d.len() implies is_digit(#[trigger] a[i]) by {
        assert(a[i] == d[i]);
    }
    if d.len() < a.len() {
        assert(a[d.len() as int] == t[0]);
    }
    lemma_digit_run_exact(a, d.len());
    lemma_run_value_prefix(a, d, d.len());
    assert(a.skip(d.len() as int) =~= t);
}

/// A run of digits compares by its numeric value, not by its text: two
/// names that differ only in a number, which stands between the same text on
/// both sides (not itself ending or starting with a digit), compare as the
/// numbers do. So "ep2.mkv" comes before "ep10.mkv".
pub proof fn lemma_numbers_compare_by_value(s: Seq<char>, t: Seq<char>, m: u64, n: u64)
    requires
        s.len() == 0 || !is_digit(s.last()),
        t.len() == 0 || !is_digit(t[0]),
    ensures
        natural_order(s + decimal(m as nat) + t, s + decimal(n as nat) + t) == order_of_numbers(m as int, n as int),
    decreases s.len(),
{
    let x = decimal(m as nat) + t;
    let y = decimal(n as nat) + t;
    let a = s + decimal(m as nat) + t;
    let b = s + decimal(n as nat) + t;
    assert(a =~= s + x);
    assert(b =~= s + y);
    lemma_decimal_digits(m as nat);
    lemma_decimal_digits(n as nat);
    if s.len() == 0 {
        assert(a =~= x);
        assert(b =~= y);
        lemma_number_then_text(m as nat, t);
        lemma_number_then_text(n as nat, t);
        assert(x[0] == decimal(m as nat)[0]);
        assert(y[0] == decimal(n as nat)[0]);
        lemma_natural_reflexive(t);
    } else {
        lemma_digit_run_bounds(s);
        assert(a[0] == s[0] && b[0] == s[0]);
        if is_digit(s[0]) {
            let k = digit_run(s);
            if k == s.len() {
                assert(is_digit(s[s.len() - 1]));
            }
            assert forall|i: int| 0 <= i < k implies is_digit(#[trigger] a[i]) by {
                assert(a[i] == s[i]);
            }
            assert forall|i: int| 0 <= i < k implies is_digit(#[trigger] b[i]) by {
                assert(b[i] == s[i]);
            }
            assert(a[k as int] == s[k as int] && b[k as int] == s[k as int]);
            lemma_digit_run_exact(a, k);
            lemma_digit_run_exact(b, k);
            lemma_run_value_prefix(a, b, k);
            let r = s.skip(k as int);
            assert(r.last() == s.last());
            assert(a.skip(k as int) =~= r + decimal(m as nat) + t);
            assert(b.skip(k as int) =~= r + decimal(n as nat) + t);
            lemma_numbers_compare_by_value(r, t, m, n);
        } else {
            let r = s.skip(1);
            if r.len() > 0 {
                assert(r.last() == s.last());
            }
            assert(a.skip(1) =~= r + decimal(m as nat) + t);
            assert(b.skip(1) =~= r + decimal(n as nat) + t);
            lemma_numbers_compare_by_value(r, t, m, n);
        }
    }
}

/// The first difference decides: where two names agree up to a place and
/// there hold different characters (ignoring ASCII case) that are not both
/// digits, the name whose lowered character has the smaller code point
/// comes first. So "show.mkv" comes before "trailer.mkv", and a digit before
/// a letter. (What comes before the place must not end in a digit run that
/// one of the two characters would lengthen.)
pub proof fn lemma_first_difference_decides(s: Seq<char>, x: char, t: Seq<char>, y: char, u: Seq<char>)
    requires
        ascii_lower(x) != ascii_lower(y),
        !(is_digit(x) && is_digit(y)),
        s.len() == 0 || !is_digit(s.last()) || (!is_digit(x) && !is_digit(y)),
    ensures
        natural_order(s + seq![x] + t, s + seq![y] + u) == (if (ascii_lower(x) as int) < (ascii_lower(y) as int) {
            Order::Less
        } else {
            Order::Greater
        }),
    decreases s.len(),
{
    let a = s + seq![x] + t;
    let b = s + seq![y] + u;
    if s.len() == 0 {
        assert(a[0] == x && b[0] == y);
    } else {
        assert(a[0] == s[0] && b[0] == s[0]);
        lemma_digit_run_bounds(s);
        if is_digit(s[0]) {
            let k = digit_run(s);
            assert forall|i: int| 0 <= i < k implies is_digit(#[trigger] a[i]) by {
                assert(a[i] == s[i]);
            }
            assert forall|i: int| 0 <= i < k implies is_digit(#[trigger] b[i]) by {
                assert(b[i] == s[i]);
            }
            if k < s.len() {
                assert(a[k as int] == s[k as int] && b[k as int] == s[k as int]);
            } else {
                assert(is_digit(s[s.len() - 1]));
                assert(a[k as int] == x && b[k as int] == y);
            }
            lemma_digit_run_exact(a, k);
            lemma_digit_run_exact(b, k);
            lemma_run_value_prefix(a, b, k);
            let r = s.skip(k as int);
            if r.len() > 0 {
                assert(r.last() == s.last());
            }
            assert(a.skip(k as int) =~= r + seq![x] + t);
            assert(b.skip(k as int) =~= r + seq![y] + u);
            lemma_first_difference_decides(r, x, t, y, u);
        } else {
            let r = s.skip(1);
            if r.len() > 0 {
                assert(r.last() == s.last());
            }
            assert(a.skip(1) =~= r + seq![x] + t);
            assert(b.skip(1) =~= r + seq![y] + u);
            lemma_first_difference_decides(r, x, t, y, u);
        }
    }
}

/// Each text comes no later, naturally, than every text after it.
pub open spec fn sorted_naturally(s: Seq<Seq<char>>) -> bool {
    forall|i: int, j: int| 0 <= i < j < s.len() ==> #[trigger] natural_order(s[i], s[j]) != Order::Greater
}

/// `r` is `v` rearranged: place `i` of `r` holds the text from place
/// `idx[i]` of `v`, no place of `v` is taken twice, and texts that compare
/// equal keep the order they came in.
pub open spec fn stable_rearrangement(v: Seq<Seq<char>>, r: Seq<Seq<char>>, idx: Seq<int>) -> bool {
    &&& r.len() == v.len()
    &&& idx.len() == r.len()
    &&& forall|i: int| 0 <= i < r.len() ==> 0 <= #[trigger] idx[i] < v.len() && r[i] == v[idx[i]]
    &&& forall|i: int, j: int| 0 <= i < j < r.len() ==> #[trigger] idx[i] != #[trigger] idx[j]
    &&& forall|i: int, j: int|
        0 <= i < j < r.len() && #[trigger] natural_order(r[i], r[j]) == Order::Equal ==> idx[i] < idx[j]
}

/// `v` in natural order. Texts that compare equal keep the order they came
/// in.
pub fn sort_naturally(v: Vec<String>) -> (r: Vec<String>)
    ensures
        sorted_naturally(texts(r@)),
        texts(r@).to_multiset() == texts(v@).to_multiset(),
        exists|idx: Seq<int>| stable_rearrangement(texts(v@), texts(r@), idx),
{
    broadcast use vstd::seq_lib::to_multiset_build, vstd::seq_lib::to_multiset_insert;

    let mut out: Vec<String> = Vec::new();
    let mut keys: Vec<Vec<char>> = Vec::new();
    let ghost mut idx: Seq<int> = Seq::empty();
    let mut m: usize = 0;
    assert(texts(v@.take(0)) =~= texts(out@));
    while m < v.len()
        invariant
            m <= v@.len(),
            out@.len() == keys@.len(),
            forall|i: int| 0 <= i < out@.len() ==> #[trigger] keys@[i]@ == out@[i]@,
            sorted_naturally(texts(out@)),
            texts(out@).to_multiset() == texts(v@.take(m as int)).to_multiset(),
            stable_rearrangement(texts(v@).take(m as int), texts(out@), idx),
        decreases v@.len() - m,
    {
        let x = v[m].clone();
        let xc = chars_of(x.as_str());
        let mut k: usize = 0;
        while k < out.len() && natural_order_of(&xc, &keys[k]) != Order::Less
            invariant
                k <= out@.len(),
                out@.len() == keys@.len(),
                forall|i: int| 0 <= i < out@.len() ==> #[trigger] keys@[i]@ == out@[i]@,
                forall|i: int| 0 <= i < k ==> #[trigger] natural_order(xc@, out@[i]@) != Order::Less,
            decreases out@.len() - k,
        {
            k = k + 1;
        }
        let ghost old_out = out@;
        let ghost old_idx = idx;
        proof {
            assert forall|i: int| 0 <= i < k implies natural_order(#[trigger] old_out[i]@, xc@) != Order::Greater by {
                lemma_natural_antisymmetric(xc@, old_out[i]@);
            }
            if k < old_out.len() {
                assert forall|j: int| k <= j < old_out.len() implies natural_order(xc@, #[trigger] old_out[j]@) == Order::Less by {
                    if j > k {
                        assert(natural_order(texts(old_out)[k as int], texts(old_out)[j]) != Order::Greater);
                        lemma_natural_transitive(xc@, old_out[k as int]@, old_out[j]@);
                    }
                }
            }
        }
        out.insert(k, x);
        keys.insert(k, xc);
        proof {
            let t = texts(out@);
            let t0 = texts(old_out);
            assert(t =~= t0.insert(k as int, xc@));
            assert forall|i: int, j: int| 0 <= i < j < t.len() implies #[trigger] natural_order(t[i], t[j]) != Order::Greater by {
                if i < k && j < k {
                    assert(natural_order(t0[i], t0[j]) != Order::Greater);
                } else if i < k && j == k {
                } else if i < k && j > k {
                    assert(natural_order(t0[i], t0[j - 1]) != Order::Greater);
                } else if i == k {
                } else {
                    assert(natural_order(t0[i - 1], t0[j - 1]) != Order::Greater);
                }
            }
            assert(v@.take(m + 1) =~= v@.take(m as int).push(v@[m as int]));
            assert(texts(v@.take(m + 1)) =~= texts(v@.take(m as int)).push(xc@));
            vstd::seq_lib::to_multiset_insert(t0, k as int, xc@);
            vstd::seq_lib::to_multiset_build(texts(v@.take(m as int)), xc@);
            idx = old_idx.insert(k as int, m as int);
            let w0 = texts(v@).take(m as int);
            let w = texts(v@).take(m + 1);
            assert forall|i: int| 0 <= i < t.len() implies 0 <= #[trigger] idx[i] < w.len() && t[i] == w[idx[i]] by {
                if i < k {
                    assert(old_idx[i] < w0.len() && t0[i] == w0[old_idx[i]]);
                } else if i > k {
                    assert(old_idx[i - 1] < w0.len() && t0[i - 1] == w0[old_idx[i - 1]]);
                }
            }
            assert forall|i: int, j: int| 0 <= i < j < t.len() implies #[trigger] idx[i] != #[trigger] idx[j] by {
                if i < k && j < k {
                    assert(old_idx[i] != old_idx[j]);
                } else if i < k && j == k {
                    assert(old_idx[i] < w0.len());
                } else if i < k && j > k {
                    assert(old_idx[i] != old_idx[j - 1]);
                } else if i == k {
                    assert(old_idx[j - 1] < w0.len());
                } else {
                    assert(old_idx[i - 1] != old_idx[j - 1]);
                }
            }
            assert forall|i: int, j: int|
                0 <= i < j < t.len() && #[trigger] natural_order(t[i], t[j]) == Order::Equal implies idx[i] < idx[j] by {
                if i < k && j < k {
                    assert(natural_order(t0[i], t0[j]) == Order::Equal);
                } else if i < k && j == k {
                    assert(old_idx[i] < w0.len());
                } else if i < k && j > k {
                    assert(natural_order(t0[i], t0[j - 1]) == Order::Equal);
                } else if i == k {
                    assert(natural_order(xc@, old_out[j - 1]@) == Order::Less);
                } else {
                    assert(natural_order(t0[i - 1], t0[j - 1]) == Order::Equal);
                }
            }
        }
        m = m + 1;
    }
    proof {
        assert(v@.take(v@.len() as int) =~= v@);
        assert(texts(v@).take(v@.len() as int) =~= texts(v@));
    }
    out
}

} // verus!
