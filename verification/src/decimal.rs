//! Exact decimal numbers read from text, of any length: their order, their
//! distance, and the whole numbers next to them.
use crate::number::{all_digits, decimal_text, digit_char, digit_value, digits_value, is_digit};
use crate::text::{copy_range, find_char, first_index};
use vstd::prelude::*;
use vstd::slice::slice_subrange;

verus! {

/// A decimal numeral taken apart: its sign, the digits before the point and
/// the digits after it.
pub struct Decimal {
    pub negative: bool,
    pub whole: Seq<char>,
    pub fraction: Seq<char>,
}

/// As many zeros as asked for.
pub open spec fn zeros(k: nat) -> Seq<char> {
    Seq::new(k, |i: int| '0')
}

/// Ten to the power `k`.
pub open spec fn pow10(k: nat) -> nat
    decreases k,
{
    if k == 0 {
        1
    } else {
        10 * pow10((k - 1) as nat)
    }
}

/// The numeral without its sign, if it has one.
pub open spec fn unsigned_part(s: Seq<char>) -> Seq<char> {
    if s.len() > 0 && (s[0] == '+' || s[0] == '-') {
        s.skip(1)
    } else {
        s
    }
}

/// The parts of a decimal numeral: an optional sign, digits, at most one
/// point among them, and at least one digit in all.
pub open spec fn decimal_of(s: Seq<char>) -> Option<Decimal> {
    let negative = s.len() > 0 && s[0] == '-';
    let body = unsigned_part(s);
    let d = match first_index(body, '.') {
        Some(i) => Decimal { negative, whole: body.take(i), fraction: body.skip(i + 1) },
        None => Decimal { negative, whole: body, fraction: Seq::<char>::empty() },
    };
    if all_digits(d.whole) && all_digits(d.fraction) && d.whole.len() + d.fraction.len() > 0 {
        Some(d)
    } else {
        None
    }
}

impl Decimal {
    /// The number without its sign, counted in units of ten to the minus
    /// `places`: the digits of the numeral written with `places` digits after
    /// the point. Meant for `places` not below the number of its own.
    pub open spec fn magnitude(self, places: nat) -> nat {
        digits_value(self.whole + self.fraction + zeros((places - self.fraction.len()) as nat))
    }

    /// The number, counted in units of ten to the minus `places`.
    pub open spec fn scaled(self, places: nat) -> int {
        if self.negative {
            -(self.magnitude(places) as int)
        } else {
            self.magnitude(places) as int
        }
    }

    /// The number is above zero.
    pub open spec fn is_positive(self) -> bool {
        self.scaled(self.fraction.len()) > 0
    }

    /// The number is a whole number.
    pub open spec fn is_whole(self) -> bool {
        self.fraction == zeros(self.fraction.len())
    }

    /// The whole number written before the point.
    pub open spec fn whole_part(self) -> nat {
        digits_value(self.whole)
    }
}

/// Digits after the point that suffice to write both numbers and a
/// millionth.
pub open spec fn common_places(a: Decimal, b: Decimal) -> nat {
    let m = if a.fraction.len() >= b.fraction.len() {
        a.fraction.len()
    } else {
        b.fraction.len()
    };
    if m >= 6 {
        m
    } else {
        6
    }
}

/// The two numbers differ by less than a millionth.
pub open spec fn within_a_millionth(a: Decimal, b: Decimal) -> bool {
    let p = common_places(a, b);
    let d = a.scaled(p) - b.scaled(p);
    -(pow10((p - 6) as nat) as int) < d && d < pow10((p - 6) as nat)
}

/// The first number is below the second.
pub open spec fn below(a: Decimal, b: Decimal) -> bool {
    let p = common_places(a, b);
    a.scaled(p) < b.scaled(p)
}

/// The two numbers are the same number.
pub open spec fn same_number(a: Decimal, b: Decimal) -> bool {
    let p = common_places(a, b);
    a.scaled(p) == b.scaled(p)
}

/// Zeros in front of digits do not change the number they write.
pub proof fn lemma_leading_zeros(k: nat, s: Seq<char>)
    ensures
        digits_value(zeros(k) + s) == digits_value(s),
    decreases s.len(),
{
    if s.len() == 0 {
        assert(zeros(k) + s =~= zeros(k));
        lemma_zeros_value(k);
    } else {
        lemma_leading_zeros(k, s.drop_last());
        assert((zeros(k) + s).drop_last() =~= zeros(k) + s.drop_last());
    }
}

/// Zeros alone write zero.
pub proof fn lemma_zeros_value(k: nat)
    ensures
        digits_value(zeros(k)) == 0,
    decreases k,
{
    if k > 0 {
        lemma_zeros_value((k - 1) as nat);
        assert(zeros(k).drop_last() =~= zeros((k - 1) as nat));
    }
}

/// Digits write zero exactly when all of them are zeros.
pub proof fn lemma_value_zero(s: Seq<char>)
    requires
        all_digits(s),
    ensures
        digits_value(s) == 0 <==> s == zeros(s.len()),
    decreases s.len(),
{
    if s.len() == 0 {
        assert(s =~= zeros(0));
    } else {
        let t = s.drop_last();
        assert(all_digits(t)) by {
            assert forall|i: int| 0 <= i < t.len() implies is_digit(#[trigger] t[i]) by {
                assert(t[i] == s[i]);
            }
        }
        lemma_value_zero(t);
        assert(is_digit(s[s.len() - 1]));
        if digits_value(s) == 0 {
            assert(t == zeros(t.len()));
            assert(s.last() == '0');
            assert(s =~= zeros(s.len())) by {
                assert forall|i: int| 0 <= i < s.len() implies s[i] == '0' by {
                    if i < t.len() {
                        assert(s[i] == t[i]);
                    }
                }
            }
        }
        if s == zeros(s.len()) {
            assert(t =~= zeros(t.len()));
        }
    }
}

/// A decimal numeral read from text: its sign and its digits before and
/// after the point.
#[derive(Debug, Clone)]
pub struct Numeral {
    pub negative: bool,
    pub whole: Vec<char>,
    pub fraction: Vec<char>,
}

impl View for Numeral {
    type V = Decimal;

    open spec fn view(&self) -> Decimal {
        Decimal { negative: self.negative, whole: self.whole@, fraction: self.fraction@ }
    }
}

impl Numeral {
    /// Both parts hold digits only, and there is at least one digit.
    pub open spec fn wf(&self) -> bool {
        &&& all_digits(self.whole@)
        &&& all_digits(self.fraction@)
        &&& self.whole@.len() + self.fraction@.len() > 0
    }
}

fn only_digits(s: &[char]) -> (b: bool)
    ensures
        b == all_digits(s@),
{
    let mut i: usize = 0;
    while i < s.len()
        invariant
            i <= s.len(),
            forall|k: int| 0 <= k < i ==> is_digit(#[trigger] s@[k]),
        decreases s.len() - i,
    {
        if !('0' <= s[i] && s[i] <= '9') {
            return false;
        }
        i += 1;
    }
    true
}

/// Reads a decimal numeral: an optional sign, digits, at most one point
/// among them, and at least one digit in all.
pub fn read_decimal(s: &[char]) -> (r: Option<Numeral>)
    ensures
        match r {
            Some(n) => decimal_of(s@) == Some(n@) && n.wf(),
            None => decimal_of(s@) is None,
        },
{
    let negative = s.len() > 0 && s[0] == '-';
    let start: usize = if s.len() > 0 && (s[0] == '+' || s[0] == '-') {
        1
    } else {
        0
    };
    let body = slice_subrange(s, start, s.len());
    assert(body@ =~= unsigned_part(s@));
    let n = body.len();
    let (whole, fraction) = match find_char(body, '.') {
        Some(i) => {
            assert(body@.subrange(0, i as int) =~= body@.take(i as int));
            assert(body@.subrange(i + 1, n as int) =~= body@.skip(i + 1));
            (slice_subrange(body, 0, i), slice_subrange(body, i + 1, n))
        },
        None => {
            assert(body@.subrange(0, n as int) =~= body@);
            assert(body@.subrange(n as int, n as int) =~= Seq::<char>::empty());
            (slice_subrange(body, 0, n), slice_subrange(body, n, n))
        },
    };
    proof {
        match first_index(body@, '.') {
            Some(i) => {
                assert(whole@ == body@.take(i) && fraction@ == body@.skip(i + 1));
            },
            None => {
                assert(whole@ == body@ && fraction@ == Seq::<char>::empty());
            },
        }
    }
    if only_digits(whole) && only_digits(fraction) && (whole.len() > 0 || fraction.len() > 0) {
        let w = copy_range(whole, 0, whole.len());
        let f = copy_range(fraction, 0, fraction.len());
        assert(w@ =~= whole@ && f@ =~= fraction@);
        Some(Numeral { negative, whole: w, fraction: f })
    } else {
        None
    }
}

/// The digits before the point, with zeros in front up to `width` digits.
pub open spec fn high_part(d: Decimal, width: nat) -> Seq<char> {
    zeros((width - d.whole.len()) as nat) + d.whole
}

/// The digits after the point, with zeros behind up to `places` digits.
pub open spec fn low_part(d: Decimal, places: nat) -> Seq<char> {
    d.fraction + zeros((places - d.fraction.len()) as nat)
}

/// The sign of a difference: -1, 0 or 1.
pub open spec fn sign_of(d: int) -> int {
    if d < 0 {
        -1
    } else if d > 0 {
        1
    } else {
        0
    }
}

/// What one pass over two numerals, digit by digit from the left, knows of
/// the two numbers read so far.
struct Scan {
    ord: i8,
    hi: i8,
    lo: i8,
    a_zero: bool,
    b_zero: bool,
    high_zero: bool,
    gap: u8,
}

spec fn common_ok(s: Scan, va: int, vb: int) -> bool {
    &&& va >= 0 && vb >= 0
    &&& s.ord == sign_of(va - vb)
    &&& s.a_zero == (va == 0)
    &&& s.b_zero == (vb == 0)
    &&& -1 <= s.hi <= 2
    &&& s.gap <= 2
}

spec fn high_ok(s: Scan, va: int, vb: int) -> bool {
    &&& common_ok(s, va, vb)
    &&& s.hi == 2 ==> va - vb >= 2 || vb - va >= 2
    &&& s.hi != 2 ==> va - vb == s.hi
}

spec fn low_ok(s: Scan, va: int, vb: int, p: int) -> bool {
    &&& common_ok(s, va, vb)
    &&& p >= 1
    &&& s.hi == 0 ==> -(p - 1) <= va - vb <= p - 1
    &&& s.hi == 2 ==> va - vb >= p + 1 || vb - va >= p + 1
    &&& s.hi == 1 ==> -p < va - vb - p < p && s.lo == sign_of(va - vb - p)
    &&& s.hi == -1 ==> -p < va - vb + p < p && s.lo == sign_of(va - vb + p)
    &&& !s.high_zero ==> va + vb >= p
    &&& s.high_zero && s.gap == 0 ==> va + vb >= p
    &&& s.high_zero && s.gap == 1 ==> p - (va + vb) == 1
    &&& s.high_zero && s.gap == 2 ==> p - (va + vb) >= 2
}

fn step_common(s: &Scan, x: u8, y: u8, Ghost(va): Ghost<int>, Ghost(vb): Ghost<int>) -> (r: (
    i8,
    bool,
    bool,
))
    requires
        common_ok(*s, va, vb),
        x <= 9,
        y <= 9,
    ensures
        r.0 == sign_of(10 * va + x - (10 * vb + y)),
        r.1 == (10 * va + x == 0),
        r.2 == (10 * vb + y == 0),
{
    let ord: i8 = if s.ord != 0 {
        s.ord
    } else if x < y {
        -1
    } else if x > y {
        1
    } else {
        0
    };
    (ord, s.a_zero && x == 0, s.b_zero && y == 0)
}

fn step_high(s: Scan, x: u8, y: u8, Ghost(va): Ghost<int>, Ghost(vb): Ghost<int>) -> (r: Scan)
    requires
        high_ok(s, va, vb),
        x <= 9,
        y <= 9,
    ensures
        high_ok(r, 10 * va + x, 10 * vb + y),
        r.lo == s.lo,
        r.gap == s.gap,
        r.high_zero == s.high_zero,
{
    let (ord, a_zero, b_zero) = step_common(&s, x, y, Ghost(va), Ghost(vb));
    let hi: i8 = if s.hi == 2 {
        2
    } else if s.hi == 0 {
        if x == y {
            0
        } else if x == y + 1 {
            1
        } else if y == x + 1 {
            -1
        } else {
            2
        }
    } else if s.hi == 1 {
        if x == 0 && y == 9 {
            1
        } else {
            2
        }
    } else {
        if x == 9 && y == 0 {
            -1
        } else {
            2
        }
    };
    Scan { ord, hi, lo: s.lo, a_zero, b_zero, high_zero: s.high_zero, gap: s.gap }
}

fn step_low(
    s: Scan,
    x: u8,
    y: u8,
    Ghost(va): Ghost<int>,
    Ghost(vb): Ghost<int>,
    Ghost(p): Ghost<int>,
) -> (r: Scan)
    requires
        low_ok(s, va, vb, p),
        x <= 9,
        y <= 9,
    ensures
        low_ok(r, 10 * va + x, 10 * vb + y, 10 * p),
{
    let (ord, a_zero, b_zero) = step_common(&s, x, y, Ghost(va), Ghost(vb));
    let lo: i8 = if s.lo != 0 {
        s.lo
    } else if x < y {
        -1
    } else if x > y {
        1
    } else {
        0
    };
    let total: u8 = x + y;
    let gap: u8 = if s.gap == 1 {
        if total >= 10 {
            0
        } else if total == 9 {
            1
        } else {
            2
        }
    } else {
        s.gap
    };
    Scan { ord, hi: s.hi, lo, a_zero, b_zero, high_zero: s.high_zero, gap }
}

fn value_of_digit(c: char) -> (d: u8)
    requires
        is_digit(c),
    ensures
        d == digit_value(c),
        d <= 9,
{
    ((c as u32) - ('0' as u32)) as u8
}

fn high_digit(n: &Numeral, width: usize, i: usize) -> (d: u8)
    requires
        n.wf(),
        n.whole@.len() <= width,
        i < width,
    ensures
        d <= 9,
        is_digit(high_part(n@, width as nat)[i as int]),
        d == digit_value(high_part(n@, width as nat)[i as int]),
{
    let pad = width - n.whole.len();
    if i < pad {
        0
    } else {
        value_of_digit(n.whole[i - pad])
    }
}

fn low_digit(n: &Numeral, Ghost(places): Ghost<nat>, j: usize) -> (d: u8)
    requires
        n.wf(),
        n.fraction@.len() <= places,
        j < places,
    ensures
        d <= 9,
        is_digit(low_part(n@, places)[j as int]),
        d == digit_value(low_part(n@, places)[j as int]),
{
    if j < n.fraction.len() {
        value_of_digit(n.fraction[j])
    } else {
        0
    }
}

/// The digits of a numeral written with `width` digits before the point and
/// `places` after it.
pub open spec fn aligned(d: Decimal, width: nat, places: nat) -> Seq<char> {
    high_part(d, width) + low_part(d, places)
}

proof fn lemma_aligned_value(d: Decimal, width: nat, places: nat)
    requires
        d.whole.len() <= width,
        d.fraction.len() <= places,
    ensures
        digits_value(aligned(d, width, places)) == d.magnitude(places),
{
    let body = d.whole + d.fraction + zeros((places - d.fraction.len()) as nat);
    assert(aligned(d, width, places) =~= zeros((width - d.whole.len()) as nat) + body);
    lemma_leading_zeros((width - d.whole.len()) as nat, body);
}

fn relate(a: &Numeral, b: &Numeral) -> (r: Scan)
    requires
        a.wf(),
        b.wf(),
    ensures
        low_ok(
            r,
            a@.magnitude(common_places(a@, b@)) as int,
            b@.magnitude(common_places(a@, b@)) as int,
            pow10((common_places(a@, b@) - 6) as nat) as int,
        ),
{
    let width: usize = if a.whole.len() >= b.whole.len() {
        a.whole.len()
    } else {
        b.whole.len()
    };
    let longest: usize = if a.fraction.len() >= b.fraction.len() {
        a.fraction.len()
    } else {
        b.fraction.len()
    };
    let places: usize = if longest >= 6 {
        longest
    } else {
        6
    };
    let ghost ga = aligned(a@, width as nat, places as nat);
    let ghost gb = aligned(b@, width as nat, places as nat);
    let mut st = Scan {
        ord: 0,
        hi: 0,
        lo: 0,
        a_zero: true,
        b_zero: true,
        high_zero: true,
        gap: 1,
    };
    let mut i: usize = 0;
    assert(ga.take(0) =~= Seq::<char>::empty() && gb.take(0) =~= Seq::<char>::empty());
    while i < width
        invariant
            i <= width,
            a.wf(),
            b.wf(),
            a.whole@.len() <= width,
            b.whole@.len() <= width,
            places == common_places(a@, b@),
            ga == aligned(a@, width as nat, places as nat),
            gb == aligned(b@, width as nat, places as nat),
            high_ok(st, digits_value(ga.take(i as int)) as int, digits_value(gb.take(i as int)) as int),
            st.lo == 0 && st.gap == 1 && st.high_zero,
        decreases width - i,
    {
        let x = high_digit(a, width, i);
        let y = high_digit(b, width, i);
        proof {
            assert(ga.take(i + 1).drop_last() =~= ga.take(i as int));
            assert(gb.take(i + 1).drop_last() =~= gb.take(i as int));
            assert(ga.take(i + 1).last() == high_part(a@, width as nat)[i as int]);
            assert(gb.take(i + 1).last() == high_part(b@, width as nat)[i as int]);
        }
        st =
        step_high(
            st,
            x,
            y,
            Ghost(digits_value(ga.take(i as int)) as int),
            Ghost(digits_value(gb.take(i as int)) as int),
        );
        i += 1;
    }
    let mut j: usize = 0;
    while j < 6
        invariant
            j <= 6 <= places,
            a.wf(),
            b.wf(),
            a.whole@.len() <= width,
            b.whole@.len() <= width,
            places == common_places(a@, b@),
            ga == aligned(a@, width as nat, places as nat),
            gb == aligned(b@, width as nat, places as nat),
            high_ok(
                st,
                digits_value(ga.take(width + j)) as int,
                digits_value(gb.take(width + j)) as int,
            ),
            st.lo == 0 && st.gap == 1 && st.high_zero,
        decreases 6 - j,
    {
        let x = low_digit(a, Ghost(places as nat), j);
        let y = low_digit(b, Ghost(places as nat), j);
        proof {
            assert(ga.take(width + j + 1).drop_last() =~= ga.take(width + j));
            assert(gb.take(width + j + 1).drop_last() =~= gb.take(width + j));
            assert(ga.take(width + j + 1).last() == low_part(a@, places as nat)[j as int]);
            assert(gb.take(width + j + 1).last() == low_part(b@, places as nat)[j as int]);
        }
        st =
        step_high(
            st,
            x,
            y,
            Ghost(digits_value(ga.take(width + j)) as int),
            Ghost(digits_value(gb.take(width + j)) as int),
        );
        j += 1;
    }
    st.high_zero = st.a_zero && st.b_zero;
    let ghost mut p: int = 1;
    assert(pow10(0) == 1);
    while j < places
        invariant
            6 <= j <= places,
            a.wf(),
            b.wf(),
            a.whole@.len() <= width,
            b.whole@.len() <= width,
            places == common_places(a@, b@),
            ga == aligned(a@, width as nat, places as nat),
            gb == aligned(b@, width as nat, places as nat),
            p == pow10((j - 6) as nat),
            low_ok(
                st,
                digits_value(ga.take(width + j)) as int,
                digits_value(gb.take(width + j)) as int,
                p,
            ),
        decreases places - j,
    {
        let x = low_digit(a, Ghost(places as nat), j);
        let y = low_digit(b, Ghost(places as nat), j);
        proof {
            assert(ga.take(width + j + 1).drop_last() =~= ga.take(width + j));
            assert(gb.take(width + j + 1).drop_last() =~= gb.take(width + j));
            assert(ga.take(width + j + 1).last() == low_part(a@, places as nat)[j as int]);
            assert(gb.take(width + j + 1).last() == low_part(b@, places as nat)[j as int]);
        }
        st =
        step_low(
            st,
            x,
            y,
            Ghost(digits_value(ga.take(width + j)) as int),
            Ghost(digits_value(gb.take(width + j)) as int),
            Ghost(p),
        );
        proof {
            p = 10 * p;
            assert(pow10((j + 1 - 6) as nat) == 10 * pow10((j - 6) as nat));
        }
        j += 1;
    }
    proof {
        assert(ga.take(width + places) =~= ga);
        assert(gb.take(width + places) =~= gb);
        lemma_aligned_value(a@, width as nat, places as nat);
        lemma_aligned_value(b@, width as nat, places as nat);
    }
    st
}

/// How two decimal numbers stand to each other.
#[derive(Debug, Clone, Copy, PartialEq, Eq)]
pub struct Relation {
    /// The first number is below the second.
    pub below: bool,
    /// The two are the same number.
    pub same: bool,
    /// The two differ by less than a millionth.
    pub near: bool,
}

/// Compares two decimal numbers exactly, whatever their length.
pub fn compare_decimals(a: &Numeral, b: &Numeral) -> (r: Relation)
    requires
        a.wf(),
        b.wf(),
    ensures
        r.below == below(a@, b@),
        r.same == same_number(a@, b@),
        r.near == within_a_millionth(a@, b@),
{
    let st = relate(a, b);
    if a.negative == b.negative {
        let near = st.hi == 0 || (st.hi == 1 && st.lo < 0) || (st.hi == -1 && st.lo > 0);
        let below = if a.negative {
            st.ord > 0
        } else {
            st.ord < 0
        };
        Relation { below, same: st.ord == 0, near }
    } else {
        let both_zero = st.a_zero && st.b_zero;
        Relation {
            below: a.negative && !both_zero,
            same: both_zero,
            near: st.high_zero && st.gap >= 1,
        }
    }
}

/// A numeral without leading zeros is the decimal numeral of its number.
pub proof fn lemma_canonical(s: Seq<char>)
    requires
        all_digits(s),
        s.len() > 0,
        s.len() == 1 || s[0] != '0',
    ensures
        decimal_text(digits_value(s)) == s,
        s.len() > 1 ==> digits_value(s) >= 10,
        s[0] != '0' ==> digits_value(s) >= 1,
    decreases s.len(),
{
    let t = s.drop_last();
    let c = s.last();
    assert(is_digit(s[s.len() - 1]));
    assert(digit_char(digit_value(c)) == c);
    if t.len() == 0 {
        assert(digits_value(t) == 0);
        assert(s =~= seq![c]);
    } else {
        assert(all_digits(t)) by {
            assert forall|i: int| 0 <= i < t.len() implies is_digit(#[trigger] t[i]) by {
                assert(t[i] == s[i]);
            }
        }
        assert(t[0] == s[0]);
        lemma_canonical(t);
        let n = digits_value(s);
        assert(n == digits_value(t) * 10 + digit_value(c));
        assert(digits_value(t) >= 1);
        assert(n >= 10);
        assert(n / 10 == digits_value(t));
        assert(n % 10 == digit_value(c));
        assert(decimal_text(n) == decimal_text(n / 10).push(digit_char(n % 10)));
        assert(s =~= t.push(c));
    }
}

/// Whether the digits write zero.
pub fn digits_are_zero(s: &[char]) -> (b: bool)
    requires
        all_digits(s@),
    ensures
        b == (digits_value(s@) == 0),
        b == (s@ == zeros(s@.len())),
{
    proof {
        lemma_value_zero(s@);
    }
    let mut i: usize = 0;
    while i < s.len()
        invariant
            i <= s.len(),
            digits_value(s@) == 0 <==> s@ == zeros(s@.len()),
            forall|k: int| 0 <= k < i ==> #[trigger] s@[k] == '0',
        decreases s.len() - i,
    {
        if s[i] != '0' {
            assert(zeros(s@.len())[i as int] == '0');
            return false;
        }
        i += 1;
    }
    assert(s@ =~= zeros(s@.len()));
    true
}

/// The decimal numeral of the number that the digits write: the digits
/// without their leading zeros.
pub fn canonical_digits(s: &[char]) -> (out: Vec<char>)
    requires
        all_digits(s@),
    ensures
        out@ == decimal_text(digits_value(s@)),
{
    let mut k: usize = 0;
    while k < s.len() && s[k] == '0'
        invariant
            k <= s.len(),
            forall|i: int| 0 <= i < k ==> #[trigger] s@[i] == '0',
        decreases s.len() - k,
    {
        k += 1;
    }
    let ghost rest = s@.skip(k as int);
    proof {
        assert(s@ =~= zeros(k as nat) + rest);
        lemma_leading_zeros(k as nat, rest);
        assert(all_digits(rest)) by {
            assert forall|i: int| 0 <= i < rest.len() implies is_digit(#[trigger] rest[i]) by {
                assert(rest[i] == s@[k + i]);
            }
        }
    }
    if k == s.len() {
        let mut out: Vec<char> = Vec::new();
        out.push('0');
        proof {
            assert(rest =~= Seq::<char>::empty());
            assert(out@ =~= seq![digit_char(0)]);
        }
        out
    } else {
        proof {
            assert(rest[0] == s@[k as int]);
            lemma_canonical(rest);
            assert(s@.subrange(k as int, s@.len() as int) =~= rest);
        }
        copy_range(s, k, s.len())
    }
}

/// Digits that write the number one below the one that `s` writes.
pub fn digits_minus_one(s: &[char]) -> (out: Vec<char>)
    requires
        all_digits(s@),
        digits_value(s@) >= 1,
    ensures
        all_digits(out@),
        digits_value(out@) == digits_value(s@) - 1,
{
    proof {
        lemma_value_zero(s@);
    }
    let n = s.len();
    let mut q: usize = n;
    while q > 0 && s[q - 1] == '0'
        invariant
            q <= n == s.len(),
            forall|i: int| q <= i < n ==> #[trigger] s@[i] == '0',
        decreases q,
    {
        q -= 1;
    }
    if q == 0 {
        proof {
            lemma_value_zero(s@);
            assert(s@ =~= zeros(s@.len()));
        }
    }
    assert(q >= 1);
    let last: usize = q - 1;
    let mut out: Vec<char> = Vec::new();
    let mut i: usize = 0;
    assert(s@.take(0) =~= out@);
    while i < n
        invariant
            i <= n == s.len(),
            last < n,
            all_digits(s@),
            s@[last as int] != '0',
            forall|k: int| last < k < n ==> #[trigger] s@[k] == '0',
            out@.len() == i,
            all_digits(out@),
            i <= last ==> out@ == s@.take(i as int),
            i > last ==> digits_value(out@) == digits_value(s@.take(i as int)) - 1,
        decreases n - i,
    {
        let c = s[i];
        let ghost prev = out@;
        proof {
            assert(s@.take(i + 1).drop_last() =~= s@.take(i as int));
            assert(s@.take(i + 1).last() == c);
            assert(is_digit(s@[i as int]));
        }
        let d: char = if i < last {
            c
        } else if i == last {
            let v = value_of_digit(c);
            let w = char_for(v - 1);
            w
        } else {
            '9'
        };
        out.push(d);
        proof {
            assert(out@.drop_last() =~= prev);
            assert(out@.last() == d);
            assert(all_digits(out@)) by {
                assert forall|k: int| 0 <= k < out@.len() implies is_digit(#[trigger] out@[k]) by {
                    if k < prev.len() {
                        assert(out@[k] == prev[k]);
                    }
                }
            }
            if i < last {
                assert(out@ =~= s@.take(i + 1));
            }
        }
        i += 1;
    }
    assert(s@.take(n as int) =~= s@);
    out
}

fn char_for(d: u8) -> (c: char)
    requires
        d <= 9,
    ensures
        c == digit_char(d as nat),
        is_digit(c),
        digit_value(c) == d,
{
    if d == 0 {
        '0'
    } else if d == 1 {
        '1'
    } else if d == 2 {
        '2'
    } else if d == 3 {
        '3'
    } else if d == 4 {
        '4'
    } else if d == 5 {
        '5'
    } else if d == 6 {
        '6'
    } else if d == 7 {
        '7'
    } else if d == 8 {
        '8'
    } else {
        '9'
    }
}

} // verus!
