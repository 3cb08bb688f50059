use vstd::prelude::*;
use vstd::arithmetic::div_mod::{lemma_basic_div, lemma_div_denominator, lemma_fundamental_div_mod};

verus! {

/// Largest number of digits a decimal may carry.
pub const MAX_DIGITS: u64 = 18;

/// Ten to the power `n`.
pub open spec fn pow10(n: nat) -> int
    decreases n,
{
    if n == 0 {
        1
    } else {
        10 * pow10((n - 1) as nat)
    }
}

pub proof fn lemma_pow10_positive(n: nat)
    ensures
        pow10(n) >= 1,
    decreases n,
{
    if n > 0 {
        lemma_pow10_positive((n - 1) as nat);
    }
}

pub proof fn lemma_pow10_max()
    ensures
        pow10(MAX_DIGITS as nat) == 1000000000000000000,
{
    reveal_with_fuel(pow10, 19);
}

pub proof fn lemma_pow10_monotone(a: nat, b: nat)
    requires
        a <= b,
    ensures
        pow10(a) <= pow10(b),
    decreases b,
{
    if a < b {
        lemma_pow10_monotone(a, (b - 1) as nat);
        lemma_pow10_positive((b - 1) as nat);
    }
}

pub open spec fn is_digit(c: char) -> bool {
    '0' <= c && c <= '9'
}

pub open spec fn digit_value(c: char) -> int {
    c as int - '0' as int
}

/// State of a left-to-right reading of an unsigned decimal text:
/// (units read so far, whether the point was seen, digits after the point, digits in all).
/// `None` once the text can no longer be a decimal of at most `MAX_DIGITS` digits,
/// fewer than `MAX_DIGITS` of them after the point.
pub open spec fn scan(s: Seq<char>) -> Option<(int, bool, nat, nat)>
    decreases s.len(),
{
    if s.len() == 0 {
        Some((0, false, 0, 0))
    } else {
        match scan(s.drop_last()) {
            None => None,
            Some((u, dot, frac, n)) => {
                let c = s.last();
                if is_digit(c) && n < MAX_DIGITS && (!dot || frac + 1 < MAX_DIGITS) {
                    Some((u * 10 + digit_value(c), dot, if dot { frac + 1 } else { frac }, n + 1))
                } else if c == '.' && !dot {
                    Some((u, true, frac, n))
                } else {
                    None
                }
            },
        }
    }
}

/// The (units, scale) of an unsigned decimal text: digits with at most one point,
/// at least one digit, at most `MAX_DIGITS` digits, fewer than that after the point.
pub open spec fn unsigned_of(s: Seq<char>) -> Option<(int, nat)> {
    match scan(s) {
        Some((u, _dot, frac, n)) => if n >= 1 { Some((u, frac)) } else { None },
        None => None,
    }
}

/// The (units, scale) of a decimal text: an optional sign, then an unsigned decimal.
/// Its value is `units / 10^scale`.
pub open spec fn decimal_of(s: Seq<char>) -> Option<(int, nat)> {
    if s.len() > 0 && (s[0] == '-' || s[0] == '+') {
        match unsigned_of(s.subrange(1, s.len() as int)) {
            Some((u, f)) => Some((if s[0] == '-' { -u } else { u }, f)),
            None => None,
        }
    } else {
        unsigned_of(s)
    }
}

/// An exact decimal number `units / 10^scale`.
#[derive(Clone, Copy, Debug, PartialEq, Eq)]
pub struct Decimal {
    pub units: i64,
    pub scale: u32,
}

impl View for Decimal {
    type V = (int, nat);

    open spec fn view(&self) -> (int, nat) {
        (self.units as int, self.scale as nat)
    }
}

impl Decimal {
    pub open spec fn wf(self) -> bool {
        -pow10(MAX_DIGITS as nat) < self.units < pow10(MAX_DIGITS as nat) && self.scale
            < MAX_DIGITS
    }

    /// `self >= other` as numbers: `a / 10^p >= b / 10^q` exactly when `a * 10^q >= b * 10^p`.
    pub open spec fn at_least(self, other: Decimal) -> bool {
        self.units * pow10(other.scale as nat) >= other.units * pow10(self.scale as nat)
    }

    /// Reads a decimal text such as `-23.45`: an optional sign, digits with at most
    /// one point, at least one digit and at most `MAX_DIGITS` of them, fewer than
    /// that after the point.
    pub fn parse(s: &str) -> (r: Option<Decimal>)
        ensures
            r is None <==> decimal_of(s@) is None,
            r matches Some(d) ==> d.wf() && decimal_of(s@) == Some(d@),
    {
        let n = s.unicode_len();
        let mut start: usize = 0;
        let mut negative = false;
        if n > 0 {
            let c = s.get_char(0);
            if c == '-' || c == '+' {
                start = 1;
                negative = c == '-';
            }
        }
        let ghost body = s@.subrange(start as int, n as int);
        let mut units: i64 = 0;
        let mut dot = false;
        let mut frac: u32 = 0;
        let mut digits: u64 = 0;
        let mut i: usize = start;
        while i < n
            invariant
                start <= 1 && start <= i <= n,
                n == s@.len(),
                body == s@.subrange(start as int, n as int),
                start == 1 ==> n > 0 && (s@[0] == '-' || s@[0] == '+') && negative == (s@[0] == '-'),
                start == 0 ==> !negative && !(n > 0 && (s@[0] == '-' || s@[0] == '+')),
                scan(body.subrange(0, i - start)) == Some(
                    (units as int, dot, frac as nat, digits as nat),
                ),
                0 <= units < pow10(digits as nat),
                frac <= digits <= MAX_DIGITS,
                frac < MAX_DIGITS,
            decreases n - i,
        {
            let c = s.get_char(i);
            proof {
                let pre = body.subrange(0, i + 1 - start);
                assert(pre.drop_last() =~= body.subrange(0, i - start));
                assert(pre.last() == c);
            }
            if '0' <= c && c <= '9' && digits < MAX_DIGITS && (!dot || frac + 1 < MAX_DIGITS as u32) {
                let d = (c as u32 - '0' as u32) as i64;
                proof {
                    lemma_pow10_monotone((digits + 1) as nat, MAX_DIGITS as nat);
                    lemma_pow10_max();
                    let p = pow10(digits as nat);
                    assert(units * 10 + d < 10 * p) by (nonlinear_arith)
                        requires
                            units < p,
                            0 <= d <= 9,
                    ;
                }
                units = units * 10 + d;
                if dot {
                    frac = frac + 1;
                }
                digits = digits + 1;
            } else if c == '.' && !dot {
                dot = true;
            } else {
                proof {
                    let pre = body.subrange(0, i + 1 - start);
                    assert(pre.drop_last() =~= body.subrange(0, i - start));
                    lemma_scan_stays_none(body, (i + 1 - start) as nat);
                    assert(body.subrange(0, body.len() as int) =~= body);
                    if start == 0 {
                        assert(body =~= s@);
                    }
                }
                return None;
            }
            i = i + 1;
        }
        proof {
            assert(body.subrange(0, n - start) =~= body);
            assert(start == 0 ==> body =~= s@);
        }
        if digits == 0 {
            return None;
        }
        proof {
            lemma_pow10_monotone(digits as nat, MAX_DIGITS as nat);
            lemma_pow10_max();
            assert(unsigned_of(body) == Some((units as int, frac as nat)));
        }
        let signed = if negative { -units } else { units };
        Some(Decimal { units: signed, scale: frac })
    }

    /// The text of this decimal, which reads back as the same units and scale:
    /// a `-` for a negative one, the integer digits (at least one), then, for a
    /// positive scale, a point and exactly `scale` digits.
    pub fn to_text(&self) -> (r: String)
        requires
            self.wf(),
        ensures
            decimal_of(r@) == Some(self@),
            r@.len() > 0 && r@[0] != '+',
    {
        let neg = self.units < 0;
        let abs: i128 = if neg { -(self.units as i128) } else { self.units as i128 };
        let scale = self.scale;
        let mut l: u32 = scale + 1;
        let mut pw: i128 = ten_to(l);
        proof {
            lemma_pow10_max();
        }
        while l < MAX_DIGITS as u32 && pw <= abs
            invariant
                scale + 1 <= l <= MAX_DIGITS,
                pw as int == pow10(l as nat),
                0 <= abs < pow10(MAX_DIGITS as nat),
                pow10(MAX_DIGITS as nat) == 1000000000000000000,
            decreases MAX_DIGITS - l,
        {
            l = l + 1;
            pw = ten_to(l);
        }
        proof {
            if l == MAX_DIGITS {
                assert(abs < pow10(l as nat));
            }
            lemma_basic_div(abs as int, pow10(l as nat));
        }
        let mut r = String::new();
        if neg {
            r.append("-");
            proof {
                reveal_strlit("-");
            }
        }
        let ghost sign = r@;
        let ghost point = (l - scale) as nat;
        let mut c: u32 = 0;
        while c < l
            invariant
                scale + 1 <= l <= MAX_DIGITS,
                scale < MAX_DIGITS,
                0 <= abs < pow10(l as nat),
                c <= l,
                point == l - scale,
                sign == (if neg { seq!['-'] } else { Seq::<char>::empty() }),
                r@.len() >= sign.len(),
                r@.subrange(0, sign.len() as int) == sign,
                c > 0 ==> is_digit(r@[sign.len() as int]),
                scan(r@.subrange(sign.len() as int, r@.len() as int)) == Some(
                    (
                        abs as int / pow10((l - c) as nat),
                        scale > 0 && c > point,
                        if scale > 0 && c > point { (c - point) as nat } else { 0 },
                        c as nat,
                    ),
                ),
            decreases l - c,
        {
            let ghost before = r@;
            let ghost prev = abs as int / pow10((l - c) as nat);
            let ghost sl = sign.len() as int;
            if scale > 0 && c == l - scale {
                r.append(".");
                proof {
                    reveal_strlit(".");
                    let body = r@.subrange(sl, r@.len() as int);
                    assert(body.drop_last() =~= before.subrange(sl, before.len() as int));
                    assert(body.last() == '.');
                    assert(scan(body) == Some((prev, true, 0nat, c as nat)));
                }
            }
            let ghost middle = r@;
            let ghost dot_now = scale > 0 && c >= point;
            let ghost frac_now: nat = if dot_now { (c - point) as nat } else { 0 };
            proof {
                assert(scan(middle.subrange(sl, middle.len() as int)) == Some(
                    (prev, dot_now, frac_now, c as nat),
                ));
            }
            let div = ten_to(l - 1 - c);
            proof {
                lemma_pow10_positive((l - 1 - c) as nat);
                lemma_pow10_monotone((l - 1 - c) as nat, MAX_DIGITS as nat);
                lemma_pow10_max();
            }
            let d = (abs / div) % 10;
            let dt = digit_text(d);
            r.append(dt);
            proof {
                lemma_next_digit(abs as int, l as nat, c as nat);
                let body = r@.subrange(sl, r@.len() as int);
                assert(body.drop_last() =~= middle.subrange(sl, middle.len() as int));
                assert(body.last() == dt@[0]);
                assert(prev * 10 + digit_value(dt@[0]) == abs as int / pow10((l - (c + 1)) as nat));
                assert(scan(body) == Some(
                    (
                        abs as int / pow10((l - (c + 1)) as nat),
                        dot_now,
                        if dot_now { (frac_now + 1) as nat } else { frac_now },
                        (c + 1) as nat,
                    ),
                ));
                assert(r@.subrange(0, sl) =~= before.subrange(0, sl));
                if c > 0 {
                    assert(r@[sl] == before[sl]);
                } else {
                    assert(r@[sl] == body[0]);
                }
            }
            c = c + 1;
        }
        proof {
            let body = r@.subrange(sign.len() as int, r@.len() as int);
            assert(abs as int / pow10(0) == abs);
            assert(scan(body) == Some((abs as int, scale > 0, scale as nat, l as nat)));
            assert(unsigned_of(body) == Some((abs as int, scale as nat)));
            if neg {
                assert(r@[0] == r@.subrange(0, 1)[0]);
                assert(r@[0] == '-');
                assert(r@.subrange(1, r@.len() as int) =~= body);
                assert(decimal_of(r@) == Some((-abs, scale as nat)));
            } else {
                assert(body =~= r@);
                assert(is_digit(r@[0]));
            }
        }
        r
    }

    /// Whether this decimal is within the bounds that `wf` sets.
    pub fn is_valid(&self) -> (r: bool)
        ensures
            r == self.wf(),
    {
        proof {
            lemma_pow10_max();
        }
        -1000000000000000000 < self.units && self.units < 1000000000000000000 && self.scale
            < MAX_DIGITS as u32
    }

    /// Whether `self >= other` as numbers.
    pub fn is_at_least(&self, other: &Decimal) -> (r: bool)
        requires
            self.wf(),
            other.wf(),
        ensures
            r == self.at_least(*other),
    {
        let a = self.units as i128;
        let b = other.units as i128;
        let pa = ten_to(self.scale);
        let pb = ten_to(other.scale);
        proof {
            let m = pow10(MAX_DIGITS as nat);
            lemma_pow10_max();
            lemma_pow10_monotone(self.scale as nat, MAX_DIGITS as nat);
            lemma_pow10_monotone(other.scale as nat, MAX_DIGITS as nat);
            lemma_pow10_positive(self.scale as nat);
            lemma_pow10_positive(other.scale as nat);
            lemma_product_bound(a as int, pb as int, m);
            lemma_product_bound(b as int, pa as int, m);
        }
        a * pb >= b * pa
    }
}

/// The text of the digit `d`.
fn digit_text(d: i128) -> (r: &'static str)
    requires
        0 <= d <= 9,
    ensures
        r@.len() == 1,
        is_digit(r@[0]),
        digit_value(r@[0]) == d,
{
    proof {
        reveal_strlit("0");
        reveal_strlit("1");
        reveal_strlit("2");
        reveal_strlit("3");
        reveal_strlit("4");
        reveal_strlit("5");
        reveal_strlit("6");
        reveal_strlit("7");
        reveal_strlit("8");
        reveal_strlit("9");
    }
    if d == 0 {
        "0"
    } else if d == 1 {
        "1"
    } else if d == 2 {
        "2"
    } else if d == 3 {
        "3"
    } else if d == 4 {
        "4"
    } else if d == 5 {
        "5"
    } else if d == 6 {
        "6"
    } else if d == 7 {
        "7"
    } else if d == 8 {
        "8"
    } else {
        "9"
    }
}

proof fn lemma_next_digit(a: int, l: nat, c: nat)
    requires
        0 <= a,
        c < l,
    ensures
        a / pow10((l - c - 1) as nat) == (a / pow10((l - c) as nat)) * 10 + (a / pow10(
            (l - c - 1) as nat,
        )) % 10,
{
    let m = pow10((l - c - 1) as nat);
    lemma_pow10_positive((l - c - 1) as nat);
    assert(pow10((l - c) as nat) == m * 10);
    lemma_div_denominator(a, m, 10);
    lemma_fundamental_div_mod(a / m, 10);
}

proof fn lemma_product_bound(a: int, p: int, m: int)
    requires
        -m < a < m,
        1 <= p <= m,
        m == 1000000000000000000,
    ensures
        -1000000000000000000000000000000000000 < a * p < 1000000000000000000000000000000000000,
{
    assert(-m * m < a * p < m * m) by (nonlinear_arith)
        requires
            -m < a < m,
            1 <= p <= m,
    ;
}

/// Once the reading of a prefix fails, the reading of every longer prefix fails.
proof fn lemma_scan_stays_none(s: Seq<char>, k: nat)
    requires
        k <= s.len(),
        scan(s.subrange(0, k as int)) is None,
    ensures
        scan(s.subrange(0, s.len() as int)) is None,
    decreases s.len() - k,
{
    if k < s.len() {
        assert(s.subrange(0, (k + 1) as int).drop_last() =~= s.subrange(0, k as int));
        lemma_scan_stays_none(s, k + 1);
    }
}

/// `10^k`, for `k <= MAX_DIGITS`.
fn ten_to(k: u32) -> (r: i128)
    requires
        k <= MAX_DIGITS,
    ensures
        r as int == pow10(k as nat),
{
    let mut r: i128 = 1;
    let mut i: u32 = 0;
    while i < k
        invariant
            i <= k <= MAX_DIGITS,
            r as int == pow10(i as nat),
        decreases k - i,
    {
        proof {
            lemma_pow10_monotone((i + 1) as nat, MAX_DIGITS as nat);
            lemma_pow10_max();
            assert(pow10((i + 1) as nat) == 10 * pow10(i as nat));
            lemma_pow10_positive(i as nat);
        }
        r = r * 10;
        i = i + 1;
    }
    r
}

} // verus!
