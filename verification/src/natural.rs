//! The natural order of names: runs of digits count by their number, all
//! other runs by their characters, so that `test2` stands before `test10`.

use vstd::prelude::*;
use crate::text::chars_of;
use std::cmp::Ordering;

verus! {

/// Whether `c` is one of `0-9`.
pub open spec fn is_digit(c: char) -> bool {
    '0' <= c <= '9'
}

/// The value of the decimal digit `c`.
pub open spec fn digit_value(c: char) -> nat {
    (c as u32 - '0' as u32) as nat
}

/// The number that the decimal digits `s` write, however long they are.
pub open spec fn decimal_value(s: Seq<char>) -> nat
    decreases s.len(),
{
    if s.len() == 0 {
        0
    } else {
        10 * decimal_value(s.drop_last()) + digit_value(s.last())
    }
}

/// The length of the first run of `s`: the longest prefix whose characters
/// are all digits or all no digits.
pub open spec fn run_len(s: Seq<char>) -> nat
    decreases s.len(),
{
    if s.len() <= 1 {
        s.len()
    } else if is_digit(s[1]) == is_digit(s[0]) {
        1 + run_len(s.skip(1))
    } else {
        1
    }
}

/// The first run of a text that is not empty is not empty and lies within
/// the text.
pub proof fn lemma_run_len_bounds(s: Seq<char>)
    requires
        s.len() > 0,
    ensures
        1 <= run_len(s) <= s.len(),
    decreases s.len(),
{
    if s.len() > 1 && is_digit(s[1]) == is_digit(s[0]) {
        lemma_run_len_bounds(s.skip(1));
    }
}

/// The sign of `x - y`: `-1`, `0` or `1`.
pub open spec fn sign_of(x: int, y: int) -> int {
    if x < y {
        -1
    } else if x > y {
        1
    } else {
        0
    }
}

/// The order of two runs of digits: that of the numbers they write.
pub open spec fn numeric_order(x: Seq<char>, y: Seq<char>) -> int {
    sign_of(decimal_value(x) as int, decimal_value(y) as int)
}

/// The lexicographic order of two texts by their characters: the first
/// difference decides, and a proper prefix stands first.
pub open spec fn lexical_order(x: Seq<char>, y: Seq<char>) -> int
    decreases x.len(),
{
    if x.len() == 0 && y.len() == 0 {
        0
    } else if x.len() == 0 {
        -1
    } else if y.len() == 0 {
        1
    } else if x[0] != y[0] {
        sign_of(x[0] as int, y[0] as int)
    } else {
        lexical_order(x.skip(1), y.skip(1))
    }
}

/// The order of two runs: by number where both are runs of digits, else by
/// their characters.
pub open spec fn run_order(x: Seq<char>, y: Seq<char>) -> int {
    if x.len() > 0 && y.len() > 0 && is_digit(x[0]) && is_digit(y[0]) {
        numeric_order(x, y)
    } else {
        lexical_order(x, y)
    }
}

/// The natural order of two names, as `-1`, `0` or `1`. The names are
/// compared run by run; the first pair of runs that differs decides, and a
/// name that ends first stands first.
pub open spec fn natural_order(a: Seq<char>, b: Seq<char>) -> int
    decreases a.len(),
{
    if a.len() == 0 && b.len() == 0 {
        0
    } else if a.len() == 0 {
        -1
    } else if b.len() == 0 {
        1
    } else {
        let i = run_len(a) as int;
        let j = run_len(b) as int;
        let first = run_order(a.take(i), b.take(j));
        if first != 0 {
            first
        } else {
            proof {
                lemma_run_len_bounds(a);
            }
            natural_order(a.skip(i), b.skip(j))
        }
    }
}

/// A text stands in the same place as itself.
proof fn lemma_lexical_order_reflexive(x: Seq<char>)
    ensures
        lexical_order(x, x) == 0,
    decreases x.len(),
{
    if x.len() > 0 {
        lemma_lexical_order_reflexive(x.skip(1));
    }
}

/// Swapping two texts reverses their lexicographic order.
proof fn lemma_lexical_order_antisymmetric(x: Seq<char>, y: Seq<char>)
    ensures
        lexical_order(y, x) == -lexical_order(x, y),
        -1 <= lexical_order(x, y) <= 1,
    decreases x.len(),
{
    if x.len() > 0 && y.len() > 0 && x[0] == y[0] {
        lemma_lexical_order_antisymmetric(x.skip(1), y.skip(1));
    }
}

/// Whether the orders `xy`, `yz` and `xz` of three things fit together:
/// where neither of the first two says "after", the third does not, and
/// where one of them says "before", the third says so too.
pub open spec fn orders_compose(xy: int, yz: int, xz: int) -> bool {
    &&& xy <= 0 && yz <= 0 ==> xz <= 0
    &&& xy <= 0 && yz <= 0 && (xy < 0 || yz < 0) ==> xz < 0
}

/// The lexicographic order is transitive.
proof fn lemma_lexical_order_transitive(x: Seq<char>, y: Seq<char>, z: Seq<char>)
    ensures
        orders_compose(lexical_order(x, y), lexical_order(y, z), lexical_order(x, z)),
    decreases x.len(),
{
    if x.len() > 0 && y.len() > 0 && z.len() > 0 && x[0] == y[0] && y[0] == z[0] {
        lemma_lexical_order_transitive(x.skip(1), y.skip(1), z.skip(1));
    }
}

/// The order of runs is transitive.
proof fn lemma_run_order_transitive(x: Seq<char>, y: Seq<char>, z: Seq<char>)
    requires
        x.len() > 0,
        y.len() > 0,
        z.len() > 0,
    ensures
        orders_compose(run_order(x, y), run_order(y, z), run_order(x, z)),
{
    lemma_lexical_order_transitive(x, y, z);
}

/// A name stands in the same place as itself.
pub proof fn lemma_natural_order_reflexive(a: Seq<char>)
    ensures
        natural_order(a, a) == 0,
    decreases a.len(),
{
    if a.len() > 0 {
        let i = run_len(a) as int;
        lemma_run_len_bounds(a);
        lemma_lexical_order_reflexive(a.take(i));
        lemma_natural_order_reflexive(a.skip(i));
    }
}

/// Swapping two names reverses their natural order, which is always one of
/// `-1`, `0` and `1`.
pub proof fn lemma_natural_order_antisymmetric(a: Seq<char>, b: Seq<char>)
    ensures
        natural_order(b, a) == -natural_order(a, b),
        -1 <= natural_order(a, b) <= 1,
    decreases a.len(),
{
    if a.len() > 0 && b.len() > 0 {
        let i = run_len(a) as int;
        let j = run_len(b) as int;
        lemma_run_len_bounds(a);
        lemma_run_len_bounds(b);
        lemma_lexical_order_antisymmetric(a.take(i), b.take(j));
        lemma_natural_order_antisymmetric(a.skip(i), b.skip(j));
    }
}

/// The natural order is transitive: where `a` is not after `b` and `b` is
/// not after `c`, `a` is not after `c`, and it is before `c` where one of
/// the two is strictly before.
pub proof fn lemma_natural_order_transitive(a: Seq<char>, b: Seq<char>, c: Seq<char>)
    ensures
        orders_compose(natural_order(a, b), natural_order(b, c), natural_order(a, c)),
    decreases a.len(),
{
    if a.len() > 0 && b.len() > 0 && c.len() > 0 {
        let i = run_len(a) as int;
        let j = run_len(b) as int;
        let k = run_len(c) as int;
        lemma_run_len_bounds(a);
        lemma_run_len_bounds(b);
        lemma_run_len_bounds(c);
        lemma_run_order_transitive(a.take(i), b.take(j), c.take(k));
        lemma_lexical_order_antisymmetric(a.take(i), b.take(j));
        lemma_lexical_order_antisymmetric(b.take(j), c.take(k));
        lemma_lexical_order_antisymmetric(a.take(i), c.take(k));
        lemma_natural_order_transitive(a.skip(i), b.skip(j), c.skip(k));
    }
}

/// Finds where the run that starts at `start` ends.
fn run_end(s: &Vec<char>, start: usize) -> (end: usize)
    requires
        start < s.len(),
    ensures
        start < end <= s.len(),
        end - start == run_len(s@.skip(start as int)),
        forall|k: int| start <= k < end ==> is_digit(#[trigger] s@[k]) == is_digit(s@[start as int]),
{
    let digits = '0' <= s[start] && s[start] <= '9';
    let mut end: usize = start;
    loop
        invariant_except_break
            start <= end < s.len(),
            digits == is_digit(s@[start as int]),
            run_len(s@.skip(start as int)) == (end - start) + run_len(s@.skip(end as int)),
            forall|k: int| start <= k <= end ==> is_digit(#[trigger] s@[k]) == digits,
        ensures
            start < end <= s.len(),
            digits == is_digit(s@[start as int]),
            end - start == run_len(s@.skip(start as int)),
            forall|k: int| start <= k < end ==> is_digit(#[trigger] s@[k]) == digits,
        decreases s.len() - end,
    {
        let ghost rest = s@.skip(end as int);
        assert(rest[0] == s@[end as int]);
        if end + 1 < s.len() {
            assert(rest[1] == s@[end + 1]);
            assert(rest.skip(1) == s@.skip(end + 1));
            let next = '0' <= s[end + 1] && s[end + 1] <= '9';
            if next == digits {
                end = end + 1;
            } else {
                end = end + 1;
                break;
            }
        } else {
            end = end + 1;
            break;
        }
    }
    end
}

/// The decimal digit at `s[i]` as a number.
fn digit_at(s: &Vec<char>, i: usize) -> (d: u8)
    requires
        i < s.len(),
        is_digit(s@[i as int]),
    ensures
        d == digit_value(s@[i as int]),
        d <= 9,
{
    (s[i] as u32 - '0' as u32) as u8
}

/// Compares the numbers that two runs of digits write. The runs are read
/// from their right ends, the shorter one as if zeros stood before it.
fn numeric_order_of(a: &Vec<char>, a0: usize, a1: usize, b: &Vec<char>, b0: usize, b1: usize) -> (c: i8)
    requires
        a0 <= a1 <= a.len(),
        b0 <= b1 <= b.len(),
        forall|k: int| a0 <= k < a1 ==> is_digit(#[trigger] a@[k]),
        forall|k: int| b0 <= k < b1 ==> is_digit(#[trigger] b@[k]),
    ensures
        c == numeric_order(a@.subrange(a0 as int, a1 as int), b@.subrange(b0 as int, b1 as int)),
{
    let la = a1 - a0;
    let lb = b1 - b0;
    let n = if la >= lb { la } else { lb };
    let ghost x = a@.subrange(a0 as int, a1 as int);
    let ghost y = b@.subrange(b0 as int, b1 as int);
    let mut c: i8 = 0;
    let mut m: usize = 0;
    while m < n
        invariant
            a0 <= a1 <= a.len(),
            b0 <= b1 <= b.len(),
            la == a1 - a0,
            lb == b1 - b0,
            n == if la >= lb { la } else { lb },
            m <= n,
            x == a@.subrange(a0 as int, a1 as int),
            y == b@.subrange(b0 as int, b1 as int),
            forall|k: int| a0 <= k < a1 ==> is_digit(#[trigger] a@[k]),
            forall|k: int| b0 <= k < b1 ==> is_digit(#[trigger] b@[k]),
            c == sign_of(
                decimal_value(x.take(if m >= n - la { m - (n - la) } else { 0 })) as int,
                decimal_value(y.take(if m >= n - lb { m - (n - lb) } else { 0 })) as int,
            ),
        decreases n - m,
    {
        let ghost ua: int = if m >= n - la { m - (n - la) } else { 0 };
        let ghost vb: int = if m >= n - lb { m - (n - lb) } else { 0 };
        let mut da: u8 = 0;
        let mut db: u8 = 0;
        if m >= n - la {
            da = digit_at(a, a0 + (m - (n - la)));
            proof {
                assert(x.take(ua + 1).drop_last() == x.take(ua));
                assert(x.take(ua + 1).last() == a@[a0 + ua]);
            }
        } else {
            proof {
                assert(x.take(0).len() == 0);
            }
        }
        if m >= n - lb {
            db = digit_at(b, b0 + (m - (n - lb)));
            proof {
                assert(y.take(vb + 1).drop_last() == y.take(vb));
                assert(y.take(vb + 1).last() == b@[b0 + vb]);
            }
        } else {
            proof {
                assert(y.take(0).len() == 0);
            }
        }
        if c == 0 {
            if da < db {
                c = -1;
            } else if da > db {
                c = 1;
            }
        }
        m = m + 1;
    }
    assert(x.take(la as int) == x);
    assert(y.take(lb as int) == y);
    c
}

/// Compares two ranges of characters lexicographically.
fn lexical_order_of(a: &Vec<char>, a0: usize, a1: usize, b: &Vec<char>, b0: usize, b1: usize) -> (c: i8)
    requires
        a0 <= a1 <= a.len(),
        b0 <= b1 <= b.len(),
    ensures
        c == lexical_order(a@.subrange(a0 as int, a1 as int), b@.subrange(b0 as int, b1 as int)),
{
    let la = a1 - a0;
    let lb = b1 - b0;
    let ghost x = a@.subrange(a0 as int, a1 as int);
    let ghost y = b@.subrange(b0 as int, b1 as int);
    let mut k: usize = 0;
    assert(x.skip(0) == x && y.skip(0) == y);
    while k < la && k < lb
        invariant
            a0 <= a1 <= a.len(),
            b0 <= b1 <= b.len(),
            la == a1 - a0,
            lb == b1 - b0,
            k <= la,
            k <= lb,
            x == a@.subrange(a0 as int, a1 as int),
            y == b@.subrange(b0 as int, b1 as int),
            lexical_order(x, y) == lexical_order(x.skip(k as int), y.skip(k as int)),
        decreases la - k,
    {
        let ca = a[a0 + k];
        let cb = b[b0 + k];
        proof {
            assert(x.skip(k as int)[0] == ca);
            assert(y.skip(k as int)[0] == cb);
            assert(x.skip(k as int).skip(1) == x.skip(k + 1));
            assert(y.skip(k as int).skip(1) == y.skip(k + 1));
        }
        if ca < cb {
            return -1;
        }
        if ca > cb {
            return 1;
        }
        k = k + 1;
    }
    if la < lb {
        -1
    } else if la > lb {
        1
    } else {
        0
    }
}

/// Compares two names, given by their characters, in the natural order.
pub fn natural_order_of(a: &Vec<char>, b: &Vec<char>) -> (c: i8)
    ensures
        c == natural_order(a@, b@),
{
    let mut pa: usize = 0;
    let mut pb: usize = 0;
    assert(a@.skip(0) == a@ && b@.skip(0) == b@);
    while pa < a.len() && pb < b.len()
        invariant
            pa <= a.len(),
            pb <= b.len(),
            natural_order(a@, b@) == natural_order(a@.skip(pa as int), b@.skip(pb as int)),
        decreases a.len() - pa,
    {
        let ea = run_end(a, pa);
        let eb = run_end(b, pb);
        let ghost ra = a@.skip(pa as int);
        let ghost rb = b@.skip(pb as int);
        proof {
            assert(ra.take(ea - pa) == a@.subrange(pa as int, ea as int));
            assert(rb.take(eb - pb) == b@.subrange(pb as int, eb as int));
            assert(ra.skip(ea - pa) == a@.skip(ea as int));
            assert(rb.skip(eb - pb) == b@.skip(eb as int));
            assert(ra[0] == a@[pa as int]);
            assert(rb[0] == b@[pb as int]);
            assert(a@.subrange(pa as int, ea as int)[0] == a@[pa as int]);
            assert(b@.subrange(pb as int, eb as int)[0] == b@[pb as int]);
        }
        let a_digits = '0' <= a[pa] && a[pa] <= '9';
        let b_digits = '0' <= b[pb] && b[pb] <= '9';
        let first = if a_digits && b_digits {
            numeric_order_of(a, pa, ea, b, pb, eb)
        } else {
            lexical_order_of(a, pa, ea, b, pb, eb)
        };
        if first != 0 {
            return first;
        }
        pa = ea;
        pb = eb;
    }
    if pa < a.len() {
        1
    } else if pb < b.len() {
        -1
    } else {
        0
    }
}

/// Compares two names in the natural order, as `-1`, `0` or `1`.
pub fn name_order(a: &str, b: &str) -> (c: i8)
    ensures
        c == natural_order(a@, b@),
{
    let x = chars_of(a);
    let y = chars_of(b);
    natural_order_of(&x, &y)
}

/// Compares two names in the natural order.
pub fn natural_lexical_cmp(a: &str, b: &str) -> (o: Ordering)
    ensures
        o == Ordering::Less <==> natural_order(a@, b@) < 0,
        o == Ordering::Equal <==> natural_order(a@, b@) == 0,
        o == Ordering::Greater <==> natural_order(a@, b@) > 0,
{
    let c = name_order(a, b);
    if c < 0 {
        Ordering::Less
    } else if c > 0 {
        Ordering::Greater
    } else {
        Ordering::Equal
    }
}

} // verus!
