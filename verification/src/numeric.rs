//! Exact decimal prices.
//!
//! A scraped price is kept as `mantissa / 10^scale`, an exact decimal
//! number.  Keeping the two integers instead of a floating-point value
//! lets every comparison (the fairness deviation test, the notification
//! price-drop test) be stated and checked exactly.

use vstd::prelude::*;

verus! {

/// `10^e`.
pub open spec fn spec_pow10(e: nat) -> nat
    decreases e,
{
    if e == 0 {
        1
    } else {
        10 * spec_pow10((e - 1) as nat)
    }
}

proof fn lemma_pow10_monotone(a: nat, b: nat)
    requires
        a <= b,
    ensures
        spec_pow10(a) <= spec_pow10(b),
    decreases b,
{
    if a < b {
        lemma_pow10_monotone(a, (b - 1) as nat);
    }
}

#[verifier::rlimit(50)]
#[verifier::spinoff_prover]
proof fn lemma_pow10_adds(a: nat, b: nat)
    ensures
        spec_pow10(a) * spec_pow10(b) == spec_pow10(a + b),
    decreases a,
{
    if a == 0 {
        assert(spec_pow10(a) == 1);
        assert(a + b == b);
        assert(1 * spec_pow10(b) == spec_pow10(b));
    } else {
        lemma_pow10_adds((a - 1) as nat, b);
        let x = spec_pow10((a - 1) as nat);
        let y = spec_pow10(b);
        assert((a + b - 1) as nat == (a - 1) as nat + b);
        assert(spec_pow10(a + b) == 10 * spec_pow10((a + b - 1) as nat));
        assert(spec_pow10(a) * spec_pow10(b) == spec_pow10(a + b)) by (nonlinear_arith)
            requires
                spec_pow10(a) == 10 * x,
                x * y == spec_pow10((a - 1) as nat + b),
                spec_pow10(a + b) == 10 * spec_pow10((a - 1) as nat + b),
                y == spec_pow10(b),
        ;
    }
}

proof fn lemma_pow10_36_fits()
    ensures
        spec_pow10(36) < u128::MAX / 10,
{
    reveal_with_fuel(spec_pow10, 37);
}

proof fn lemma_pow10_18_fits()
    ensures
        spec_pow10(18) < u64::MAX,
{
    reveal_with_fuel(spec_pow10, 19);
}

/// An exact decimal number `mantissa / 10^scale`, limited to 18 digits
/// so that the cross-multiplied comparisons below fit in `u128`.
#[derive(Clone, Copy, Debug, PartialEq, Eq, Structural)]
pub struct Decimal {
    pub mantissa: u64,
    pub scale: u32,
}

impl Decimal {
    pub open spec fn wf(self) -> bool {
        self.mantissa < spec_pow10(18) && self.scale <= 18
    }

    /// `self < other`, as values: `m1/10^s1 < m2/10^s2` cross-multiplied.
    pub open spec fn spec_lt(self, other: Decimal) -> bool {
        self.mantissa * spec_pow10(other.scale as nat) < other.mantissa * spec_pow10(
            self.scale as nat,
        )
    }

    /// `self` and `other` denote the same value.
    pub open spec fn spec_eq_value(self, other: Decimal) -> bool {
        self.mantissa * spec_pow10(other.scale as nat) == other.mantissa * spec_pow10(
            self.scale as nat,
        )
    }
}

/// The fairness test: the relative deviation `|new/last - 1|` exceeds 10%.
///
/// Cross-multiplied to stay in integers: with `n = new` and `l = last`
/// scaled to the common denominator `10^(new.scale + last.scale)`,
/// the deviation exceeds a tenth exactly when `10*|n - l| > l`.
/// When `last` is zero this holds exactly for a non-zero `new`.
pub open spec fn spec_deviates(new: Decimal, last: Decimal) -> bool {
    let n = new.mantissa * spec_pow10(last.scale as nat);
    let l = last.mantissa * spec_pow10(new.scale as nat);
    10 * (if n >= l {
        n - l
    } else {
        l - n
    }) > l
}

/// `10^e` as a `u128`.
fn pow10_u128(e: u32) -> (r: u128)
    requires
        e <= 36,
    ensures
        r == spec_pow10(e as nat),
{
    let mut r: u128 = 1;
    let mut i: u32 = 0;
    while i < e
        invariant
            i <= e <= 36,
            r == spec_pow10(i as nat),
        decreases e - i,
    {
        proof {
            lemma_pow10_monotone((i + 1) as nat, 36);
            lemma_pow10_36_fits();
        }
        r = r * 10;
        i = i + 1;
    }
    r
}

proof fn lemma_cross_product_bounded(m: u64, s: u32)
    requires
        m < spec_pow10(18),
        s <= 18,
    ensures
        m * spec_pow10(s as nat) < spec_pow10(36),
{
    lemma_pow10_monotone(s as nat, 18);
    assert(m * spec_pow10(s as nat) <= m * spec_pow10(18)) by (nonlinear_arith)
        requires
            spec_pow10(s as nat) <= spec_pow10(18),
            0 <= m,
    ;
    assert(m * spec_pow10(18) < spec_pow10(18) * spec_pow10(18)) by (nonlinear_arith)
        requires
            m < spec_pow10(18),
            0 < spec_pow10(18),
    ;
    lemma_pow10_adds(18, 18);
}

/// `a < b`, comparing the decimal values.
pub fn dec_lt(a: &Decimal, b: &Decimal) -> (r: bool)
    requires
        a.wf(),
        b.wf(),
    ensures
        r == a.spec_lt(*b),
{
    proof {
        lemma_cross_product_bounded(a.mantissa, b.scale);
        lemma_cross_product_bounded(b.mantissa, a.scale);
        lemma_pow10_36_fits();
    }
    let x = (a.mantissa as u128) * pow10_u128(b.scale);
    let y = (b.mantissa as u128) * pow10_u128(a.scale);
    x < y
}

/// `a` and `b` denote the same value.
pub fn dec_eq_value(a: &Decimal, b: &Decimal) -> (r: bool)
    requires
        a.wf(),
        b.wf(),
    ensures
        r == a.spec_eq_value(*b),
{
    proof {
        lemma_cross_product_bounded(a.mantissa, b.scale);
        lemma_cross_product_bounded(b.mantissa, a.scale);
        lemma_pow10_36_fits();
    }
    let x = (a.mantissa as u128) * pow10_u128(b.scale);
    let y = (b.mantissa as u128) * pow10_u128(a.scale);
    x == y
}

/// Whether `new` deviates from `last` by more than the 10% fairness
/// threshold.
pub fn deviates(new: &Decimal, last: &Decimal) -> (r: bool)
    requires
        new.wf(),
        last.wf(),
    ensures
        r == spec_deviates(*new, *last),
{
    proof {
        lemma_cross_product_bounded(new.mantissa, last.scale);
        lemma_cross_product_bounded(last.mantissa, new.scale);
        lemma_pow10_36_fits();
    }
    let n = (new.mantissa as u128) * pow10_u128(last.scale);
    let l = (last.mantissa as u128) * pow10_u128(new.scale);
    let d = if n >= l {
        n - l
    } else {
        l - n
    };
    10 * d > l
}

/// ASCII decimal digit.
pub open spec fn is_price_digit(c: char) -> bool {
    '0' <= c && c <= '9'
}

pub open spec fn digit_value(c: char) -> int {
    c as int - 48
}

/// Commas count as decimal dots before filtering.
pub open spec fn separator_mapped(c: char) -> char {
    if c == ',' {
        '.'
    } else {
        c
    }
}

/// The left-to-right single-dot rule: after mapping commas to dots,
/// keep every digit and the first dot only; every later dot and every
/// other character is dropped.  `dot_seen` records whether a dot was
/// already kept.
pub open spec fn normalize_price(s: Seq<char>, dot_seen: bool) -> Seq<char>
    decreases s.len(),
{
    if s.len() == 0 {
        Seq::empty()
    } else {
        let c = separator_mapped(s[0]);
        let rest = s.drop_first();
        if is_price_digit(c) {
            seq![c] + normalize_price(rest, dot_seen)
        } else if c == '.' && !dot_seen {
            seq!['.'] + normalize_price(rest, true)
        } else if c == '.' {
            normalize_price(rest, true)
        } else {
            normalize_price(rest, dot_seen)
        }
    }
}

/// The digit characters of `s`, in order.
pub open spec fn digits_of(s: Seq<char>) -> Seq<char>
    decreases s.len(),
{
    if s.len() == 0 {
        Seq::empty()
    } else if is_price_digit(s[0]) {
        seq![s[0]] + digits_of(s.drop_first())
    } else {
        digits_of(s.drop_first())
    }
}

/// Number of digits after the first dot of a normalized string.
pub open spec fn scale_of(s: Seq<char>) -> nat
    decreases s.len(),
{
    if s.len() == 0 {
        0
    } else if s[0] == '.' {
        digits_of(s.drop_first()).len()
    } else {
        scale_of(s.drop_first())
    }
}

pub open spec fn has_dot(s: Seq<char>) -> bool {
    exists|i: int| 0 <= i < s.len() && s[i] == '.'
}

/// The base-ten value of a digit string.
pub open spec fn digits_to_nat(ds: Seq<char>) -> int
    decreases ds.len(),
{
    if ds.len() == 0 {
        0
    } else {
        10 * digits_to_nat(ds.drop_last()) + digit_value(ds.last())
    }
}

/// The whole parse, as spec.  The normalized text must hold at least
/// one digit (otherwise nothing numeric was matched) and at most 18
/// (so the value fits the bounded decimal form).
pub open spec fn parse_price(s: Seq<char>) -> Option<Decimal> {
    let norm = normalize_price(s, false);
    let ds = digits_of(norm);
    if ds.len() == 0 || ds.len() > 18 {
        None
    } else {
        Some(
            Decimal {
                mantissa: digits_to_nat(ds) as u64,
                scale: scale_of(norm) as u32,
            },
        )
    }
}

proof fn lemma_digits_single(c: char)
    ensures
        is_price_digit(c) ==> digits_of(seq![c]) == seq![c],
        !is_price_digit(c) ==> digits_of(seq![c]) == Seq::<char>::empty(),
{
    assert(seq![c].drop_first() =~= Seq::<char>::empty());
    assert(digits_of(Seq::<char>::empty()) == Seq::<char>::empty());
    if is_price_digit(c) {
        assert(digits_of(seq![c]) =~= seq![c]);
    }
}

proof fn lemma_digits_distributes(a: Seq<char>, b: Seq<char>)
    ensures
        digits_of(a + b) == digits_of(a) + digits_of(b),
    decreases a.len(),
{
    if a.len() == 0 {
        assert(a + b =~= b);
        assert(digits_of(a) + digits_of(b) =~= digits_of(b));
    } else {
        lemma_digits_distributes(a.drop_first(), b);
        assert((a + b).drop_first() =~= a.drop_first() + b);
        if is_price_digit(a[0]) {
            assert(seq![a[0]] + (digits_of(a.drop_first()) + digits_of(b)) =~= (seq![a[0]]
                + digits_of(a.drop_first())) + digits_of(b));
        }
    }
}

proof fn lemma_has_dot_append(a: Seq<char>, c: char)
    ensures
        has_dot(a + seq![c]) == (has_dot(a) || c == '.'),
{
    let e = a + seq![c];
    if has_dot(a) {
        let i = choose|i: int| 0 <= i < a.len() && a[i] == '.';
        assert(e[i] == '.');
    }
    if c == '.' {
        assert(e[a.len() as int] == '.');
    }
    if has_dot(e) && !(c == '.') {
        let i = choose|i: int| 0 <= i < e.len() && e[i] == '.';
        assert(i < a.len() && a[i] == '.');
    }
}

proof fn lemma_no_dot_scale(a: Seq<char>)
    requires
        !has_dot(a),
    ensures
        scale_of(a) == 0,
    decreases a.len(),
{
    if a.len() > 0 {
        assert(a[0] != '.');
        assert(forall|i: int| 0 <= i < a.drop_first().len() ==> a.drop_first()[i] == a[i + 1]);
        lemma_no_dot_scale(a.drop_first());
    }
}

proof fn lemma_scale_append(a: Seq<char>, c: char)
    ensures
        has_dot(a) && is_price_digit(c) ==> scale_of(a + seq![c]) == scale_of(a) + 1,
        has_dot(a) && !is_price_digit(c) ==> scale_of(a + seq![c]) == scale_of(a),
        !has_dot(a) ==> scale_of(a + seq![c]) == 0,
    decreases a.len(),
{
    let e = a + seq![c];
    if a.len() == 0 {
        assert(e =~= seq![c]);
        assert(e.drop_first() =~= Seq::<char>::empty());
        assert(scale_of(Seq::<char>::empty()) == 0);
        assert(digits_of(Seq::<char>::empty()) == Seq::<char>::empty());
    } else {
        assert(e[0] == a[0]);
        assert(e.drop_first() =~= a.drop_first() + seq![c]);
        if a[0] == '.' {
            assert(has_dot(a));
            lemma_digits_distributes(a.drop_first(), seq![c]);
            lemma_digits_single(c);
            if !is_price_digit(c) {
                assert(digits_of(a.drop_first()) + digits_of(seq![c]) =~= digits_of(
                    a.drop_first(),
                ));
            }
        } else {
            lemma_scale_append(a.drop_first(), c);
            assert(has_dot(a) == has_dot(a.drop_first())) by {
                if has_dot(a) {
                    let i = choose|i: int| 0 <= i < a.len() && a[i] == '.';
                    assert(a.drop_first()[i - 1] == '.');
                }
                if has_dot(a.drop_first()) {
                    let i = choose|i: int|
                        0 <= i < a.drop_first().len() && a.drop_first()[i] == '.';
                    assert(a[i + 1] == '.');
                }
            }
            if !has_dot(a) {
                lemma_no_dot_scale(a);
            }
        }
    }
}

/// Parse a scraped text fragment as a price: replace every comma with a
/// dot, keep only digits and the first dot, and read the result as a
/// decimal number.  `None` when no digit remains, or when more than 18
/// digits remain (the value would not fit the bounded decimal form).
pub fn string_to_decimal(s: &str) -> (r: Option<Decimal>)
    ensures
        r == parse_price(s@),
        r matches Some(d) ==> d.wf(),
{
    let len = s.unicode_len();
    let mut i: usize = 0;
    let mut dot_seen = false;
    let mut mantissa: u64 = 0;
    let mut scale: u32 = 0;
    let mut ndigits: u64 = 0;
    let ghost mut acc: Seq<char> = Seq::empty();
    proof {
        assert(s@.skip(0) =~= s@);
        assert(acc + normalize_price(s@, false) =~= normalize_price(s@, false));
    }
    while i < len
        invariant
            i <= len,
            len == s@.len(),
            normalize_price(s@, false) == acc + normalize_price(s@.skip(i as int), dot_seen),
            dot_seen == has_dot(acc),
            ndigits == digits_of(acc).len(),
            scale == scale_of(acc),
            scale <= ndigits <= 18,
            mantissa == digits_to_nat(digits_of(acc)),
            mantissa < spec_pow10(ndigits as nat),
        decreases len - i,
    {
        let c0 = s.get_char(i);
        let c = if c0 == ',' {
            '.'
        } else {
            c0
        };
        proof {
            assert(s@.skip(i as int).drop_first() =~= s@.skip(i as int + 1));
            assert(s@.skip(i as int)[0] == s@[i as int]);
        }
        let ghost rest_norm = normalize_price(s@.skip(i as int + 1), dot_seen);
        if '0' <= c && c <= '9' {
            proof {
                lemma_digits_distributes(acc, seq![c] + rest_norm);
                lemma_digits_distributes(seq![c], rest_norm);
                lemma_digits_single(c);
            }
            if ndigits == 18 {
                proof {
                    assert(digits_of(normalize_price(s@, false)).len() >= 19);
                }
                return None;
            }
            proof {
                lemma_digits_distributes(acc, seq![c]);
                assert(digits_of(acc + seq![c]) =~= digits_of(acc) + seq![c]);
                assert((digits_of(acc) + seq![c]).drop_last() =~= digits_of(acc));
                assert((digits_of(acc) + seq![c]).last() == c);
                lemma_scale_append(acc, c);
                lemma_has_dot_append(acc, c);
                if !has_dot(acc) {
                    lemma_no_dot_scale(acc);
                }
                assert(normalize_price(s@, false) == (acc + seq![c]) + rest_norm) by {
                    assert(acc + (seq![c] + rest_norm) =~= (acc + seq![c]) + rest_norm);
                }
                lemma_pow10_monotone(ndigits as nat, 17);
                lemma_pow10_18_fits();
                assert(spec_pow10(18) == 10 * spec_pow10(17));
                assert(spec_pow10((ndigits + 1) as nat) == 10 * spec_pow10(ndigits as nat));
            }
            let v = (c as u32 - 48) as u64;
            mantissa = mantissa * 10 + v;
            ndigits = ndigits + 1;
            if dot_seen {
                scale = scale + 1;
            }
            proof {
                acc = acc + seq![c];
            }
        } else if c == '.' {
            if !dot_seen {
                proof {
                    lemma_digits_distributes(acc, seq!['.']);
                    lemma_digits_single('.');
                    assert(digits_of(acc) + Seq::<char>::empty() =~= digits_of(acc));
                    lemma_scale_append(acc, '.');
                    lemma_has_dot_append(acc, '.');
                    lemma_no_dot_scale(acc);
                    assert(normalize_price(s@, false) == (acc + seq!['.']) + normalize_price(
                        s@.skip(i as int + 1),
                        true,
                    )) by {
                        let r2 = normalize_price(s@.skip(i as int + 1), true);
                        assert(acc + (seq!['.'] + r2) =~= (acc + seq!['.']) + r2);
                    }
                    acc = acc + seq!['.'];
                }
                dot_seen = true;
            }
        } else {
        }
        i = i + 1;
    }
    proof {
        assert(s@.skip(len as int) =~= Seq::<char>::empty());
        assert(acc + normalize_price(Seq::empty(), dot_seen) =~= acc);
        lemma_pow10_monotone(ndigits as nat, 18);
    }
    if ndigits == 0 {
        None
    } else {
        Some(Decimal { mantissa, scale })
    }
}

} // verus!
