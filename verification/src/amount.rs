//! Monetary values as exact hundredths.
//!
//! The document format stores each value as a decimal numeral with at most
//! two fractional digits.  Holding the value as an integer count of
//! hundredths keeps parsing, rendering and summing exact; the magnitude is
//! capped so that arithmetic over whole documents cannot overflow.

use vstd::prelude::*;

use crate::text::{is_space, spec_find};

verus! {

/// Largest magnitude a value may have, in hundredths.
pub const MAX_CENTS: i64 = 100_000_000_000_000;

/// A decimal value with two fractional digits, held as hundredths.
#[derive(Clone, Copy, Debug, PartialEq, Eq, Structural)]
pub struct Amount {
    cents: i64,
}

/// The digit character for `d` (0 to 9).
pub open spec fn digit_char(d: int) -> char {
    if d == 0 {
        '0'
    } else if d == 1 {
        '1'
    } else if d == 2 {
        '2'
    } else if d == 3 {
        '3'
    } else if d == 4 {
        '4'
    } else if d == 5 {
        '5'
    } else if d == 6 {
        '6'
    } else if d == 7 {
        '7'
    } else if d == 8 {
        '8'
    } else {
        '9'
    }
}

/// The value of a digit character, or -1 if `c` is no digit.
pub open spec fn digit_val(c: char) -> int {
    if c == '0' {
        0
    } else if c == '1' {
        1
    } else if c == '2' {
        2
    } else if c == '3' {
        3
    } else if c == '4' {
        4
    } else if c == '5' {
        5
    } else if c == '6' {
        6
    } else if c == '7' {
        7
    } else if c == '8' {
        8
    } else if c == '9' {
        9
    } else {
        -1
    }
}

pub open spec fn is_digit(c: char) -> bool {
    digit_val(c) >= 0
}

pub open spec fn all_digits(s: Seq<char>) -> bool {
    forall|k: int| 0 <= k < s.len() ==> is_digit(#[trigger] s[k])
}

/// The decimal numeral of `n`, most significant digit first.
pub open spec fn digits_of(n: nat) -> Seq<char>
    decreases n,
{
    if n < 10 {
        seq![digit_char(n as int)]
    } else {
        digits_of(n / 10) + seq![digit_char((n % 10) as int)]
    }
}

/// The number denoted by a digit string (most significant digit first).
pub open spec fn digits_value(s: Seq<char>) -> nat
    decreases s.len(),
{
    if s.len() == 0 {
        0
    } else {
        digits_value(s.drop_last()) * 10 + (if digit_val(s.last()) >= 0 {
            digit_val(s.last())
        } else {
            0
        }) as nat
    }
}

/// How a count of hundredths renders: optional sign, the whole part without
/// leading zeros, and the fractional part only as far as it is non-zero.
pub open spec fn render_cents(c: int) -> Seq<char> {
    let sign: Seq<char> = if c < 0 {
        seq!['-']
    } else {
        Seq::empty()
    };
    let m = (if c < 0 {
        -c
    } else {
        c
    }) as nat;
    let whole = m / 100;
    let frac = m % 100;
    if frac == 0 {
        sign + digits_of(whole)
    } else if frac % 10 == 0 {
        sign + digits_of(whole) + seq!['.', digit_char((frac / 10) as int)]
    } else {
        sign + digits_of(whole) + seq!['.', digit_char((frac / 10) as int), digit_char(
            (frac % 10) as int,
        )]
    }
}

/// The count of hundredths denoted by a numeral: an optional minus sign, a
/// non-empty string of digits, and optionally a point followed by one or two
/// digits.  `None` when the text has any other shape or the magnitude
/// exceeds [`MAX_CENTS`].
pub open spec fn amount_value(s: Seq<char>) -> Option<int> {
    let neg = s.len() > 0 && s[0] == '-';
    let t = if neg {
        s.drop_first()
    } else {
        s
    };
    let i = spec_find(t, '.');
    let ipart = if i == -1 {
        t
    } else {
        t.take(i)
    };
    let fpart = if i == -1 {
        Seq::<char>::empty()
    } else {
        t.skip(i + 1)
    };
    if ipart.len() == 0 || !all_digits(ipart) {
        None
    } else if i != -1 && !(1 <= fpart.len() <= 2 && all_digits(fpart)) {
        None
    } else {
        let frac: int = if fpart.len() == 0 {
            0
        } else if fpart.len() == 1 {
            digit_val(fpart[0]) * 10
        } else {
            digits_value(fpart) as int
        };
        let mag: int = digits_value(ipart) * 100 + frac;
        if mag > MAX_CENTS {
            None
        } else {
            Some(
                if neg {
                    -mag
                } else {
                    mag
                },
            )
        }
    }
}

/// The numeral of `n` is non-empty, all digits, denotes `n`, and has no
/// leading zero unless it is the single digit 0.
pub proof fn lemma_digits_of(n: nat)
    ensures
        digits_of(n).len() >= 1,
        all_digits(digits_of(n)),
        digits_value(digits_of(n)) == n,
        n > 0 ==> digits_of(n)[0] != '0',
        n < 10 ==> digits_of(n) == seq![digit_char(n as int)],
    decreases n,
{
    if n < 10 {
        let s = seq![digit_char(n as int)];
        assert(s.drop_last() =~= Seq::<char>::empty());
        assert(digit_val(digit_char(n as int)) == n as int);
        assert(s.last() == digit_char(n as int));
        assert(digits_value(Seq::<char>::empty()) == 0);
        assert(digits_value(s) == n);
    } else {
        lemma_digits_of(n / 10);
        let a = digits_of(n / 10);
        let s = a + seq![digit_char((n % 10) as int)];
        assert(s.drop_last() =~= a);
        assert(s.last() == digit_char((n % 10) as int));
        assert(digits_value(s) == digits_value(a) * 10 + n % 10);
        assert(s[0] == a[0]);
        assert(forall|k: int| 0 <= k < s.len() ==> s[k] == (if k < a.len() {
            a[k]
        } else {
            digit_char((n % 10) as int)
        }));
    }
}

/// A digit string's prefixes denote no more than the whole string.
pub proof fn lemma_digits_prefix(s: Seq<char>, i: int)
    requires
        0 <= i <= s.len(),
    ensures
        digits_value(s.take(i)) <= digits_value(s),
    decreases s.len() - i,
{
    if i == s.len() {
        assert(s.take(i) =~= s);
    } else {
        assert(s.take(i + 1).drop_last() =~= s.take(i));
        assert(digits_value(s.take(i + 1)) >= digits_value(s.take(i)));
        lemma_digits_prefix(s, i + 1);
    }
}

/// Runtime digit test and value, matching [`digit_val`].
pub fn char_digit(c: char) -> (r: Option<u8>)
    ensures
        match r {
            Some(d) => digit_val(c) == d as int && d <= 9,
            None => digit_val(c) == -1,
        },
{
    match c {
        '0' => Some(0),
        '1' => Some(1),
        '2' => Some(2),
        '3' => Some(3),
        '4' => Some(4),
        '5' => Some(5),
        '6' => Some(6),
        '7' => Some(7),
        '8' => Some(8),
        '9' => Some(9),
        _ => None,
    }
}

/// Runtime digit character, matching [`digit_char`].
pub fn digit_to_char(d: u8) -> (r: char)
    requires
        d <= 9,
    ensures
        r == digit_char(d as int),
{
    match d {
        0 => '0',
        1 => '1',
        2 => '2',
        3 => '3',
        4 => '4',
        5 => '5',
        6 => '6',
        7 => '7',
        8 => '8',
        _ => '9',
    }
}

/// Appends the numeral of `n` to `out`.
fn push_digits(out: &mut String, n: u64)
    ensures
        final(out)@ == old(out)@ + digits_of(n as nat),
    decreases n,
{
    proof {
        lemma_digits_of(n as nat);
    }
    if n >= 10 {
        push_digits(out, n / 10);
        crate::text::push_char(out, digit_to_char((n % 10) as u8));
        proof {
            assert(out@ =~= old(out)@ + digits_of(n as nat));
        }
    } else {
        crate::text::push_char(out, digit_to_char(n as u8));
        proof {
            assert(out@ =~= old(out)@ + digits_of(n as nat));
        }
    }
}

impl Amount {
    #[verifier::type_invariant]
    spec fn wf(self) -> bool {
        -MAX_CENTS <= self.cents <= MAX_CENTS
    }

    /// The value in hundredths.
    pub closed spec fn spec_cents(self) -> int {
        self.cents as int
    }

    /// The zero value.
    pub fn zero() -> (r: Amount)
        ensures
            r.spec_cents() == 0,
    {
        Amount { cents: 0 }
    }

    /// An amount of `cents` hundredths; `None` when out of range.
    pub fn from_cents(cents: i64) -> (r: Option<Amount>)
        ensures
            match r {
                Some(a) => a.spec_cents() == cents && -MAX_CENTS <= cents <= MAX_CENTS,
                None => !(-MAX_CENTS <= cents <= MAX_CENTS),
            },
    {
        if -MAX_CENTS <= cents && cents <= MAX_CENTS {
            Some(Amount { cents })
        } else {
            None
        }
    }

    /// Renders the value as the document format writes it: no currency
    /// symbol, no forced trailing zeros.
    pub fn to_text(&self) -> (r: String)
        ensures
            r@ == render_cents(self.spec_cents()),
    {
        proof {
            use_type_invariant(&*self);
        }
        let c = self.cents;
        let mut out = String::new();
        if c < 0 {
            crate::text::push_char(&mut out, '-');
        }
        let m: i64 = if c < 0 {
            -c
        } else {
            c
        };
        let whole: u64 = (m / 100) as u64;
        let frac: u64 = (m % 100) as u64;
        push_digits(&mut out, whole);
        if frac != 0 {
            crate::text::push_char(&mut out, '.');
            crate::text::push_char(&mut out, digit_to_char((frac / 10) as u8));
            if frac % 10 != 0 {
                crate::text::push_char(&mut out, digit_to_char((frac % 10) as u8));
            }
        }
        proof {
            assert(out@ =~= render_cents(self.spec_cents()));
        }
        out
    }

    /// Parses a numeral, accepting exactly the texts [`amount_value`]
    /// accepts.
    #[verifier::loop_isolation(false)]
    #[verifier::rlimit(60)]
    pub fn parse_text(s: &str) -> (r: Option<Amount>)
        ensures
            match r {
                Some(a) => amount_value(s@) == Some(a.spec_cents()),
                None => amount_value(s@) is None,
            },
    {
        let n = s.unicode_len();
        let neg = n > 0 && s.get_char(0) == '-';
        let start: usize = if neg {
            1
        } else {
            0
        };
        let ghost t: Seq<char> = if neg {
            s@.drop_first()
        } else {
            s@
        };
        proof {
            assert(forall|j: int| 0 <= j < t.len() ==> t[j] == s@[j + start]);
        }
        // First decimal point at or after the optional sign.
        let mut dot: Option<usize> = None;
        let mut k: usize = start;
        while k < n && dot.is_none()
            invariant
                start <= k <= n == s@.len(),
                start <= 1,
                t.len() == n - start,
                forall|j: int| 0 <= j < t.len() ==> t[j] == s@[j + start],
                forall|j: int| start <= j < k ==> s@[j] != '.',
                match dot {
                    Some(d) => d == k && k < n && s@[k as int] == '.',
                    None => true,
                },
            decreases n - k + (if dot is None {
                1int
            } else {
                0int
            }),
        {
            if s.get_char(k) == '.' {
                dot = Some(k);
            } else {
                k += 1;
            }
        }
        proof {
            match dot {
                Some(d) => {
                    crate::text::lemma_find_is(t, '.', d - start);
                    assert(spec_find(t, '.') == d - start);
                },
                None => {
                    crate::text::lemma_find(t, '.');
                    assert(spec_find(t, '.') == -1) by {
                        if spec_find(t, '.') != -1 {
                            let i = spec_find(t, '.');
                            assert(t[i] == '.');
                            assert(s@[i + start] == '.');
                        }
                    }
                },
            }
        }
        let ip_hi: usize = match dot {
            Some(d) => d,
            None => n,
        };
        let ghost ipart: Seq<char> = if spec_find(t, '.') == -1 {
            t
        } else {
            t.take(spec_find(t, '.'))
        };
        proof {
            assert(ipart =~= s@.subrange(start as int, ip_hi as int));
        }
        if ip_hi == start {
            proof {
                assert(ipart.len() == 0);
            }
            return None;
        }
        // Whole part: accumulate digits, reject anything over the cap early.
        let mut acc: u64 = 0;
        let mut p: usize = start;
        while p < ip_hi
            invariant
                start <= p <= ip_hi <= n == s@.len(),
                ipart =~= s@.subrange(start as int, ip_hi as int),
                acc == digits_value(ipart.take(p - start)),
                acc <= MAX_CENTS / 100,
                forall|j: int| 0 <= j < p - start ==> is_digit(#[trigger] ipart[j]),
            decreases ip_hi - p,
        {
            let c = s.get_char(p);
            proof {
                assert(ipart[p - start] == c);
                assert(ipart.take(p + 1 - start).drop_last() =~= ipart.take(p - start));
                assert(ipart.take(p + 1 - start).last() == c);
            }
            match char_digit(c) {
                None => {
                    proof {
                        assert(!is_digit(ipart[p - start]));
                        assert(!all_digits(ipart));
                    }
                    return None;
                },
                Some(d) => {
                    acc = acc * 10 + (d as u64);
                    p += 1;
                    if acc > MAX_CENTS as u64 / 100 {
                        proof {
                            lemma_digits_prefix(ipart, p - start);
                            assert(digits_value(ipart) >= acc);
                            assert(digits_value(ipart) * 100 + 0 > MAX_CENTS);
                        }
                        return None;
                    }
                },
            }
        }
        proof {
            assert(ipart.take(ip_hi - start) =~= ipart);
            assert(all_digits(ipart));
        }
        // Fractional part: one or two digits when a point is present.
        let ghost fpart: Seq<char> = if spec_find(t, '.') == -1 {
            Seq::<char>::empty()
        } else {
            t.skip(spec_find(t, '.') + 1)
        };
        let mut frac: u64 = 0;
        if let Some(d) = dot {
            proof {
                assert(fpart =~= s@.subrange(d + 1, n as int));
            }
            let flen = n - (d + 1);
            if flen == 0 || flen > 2 {
                return None;
            }
            let c1 = match char_digit(s.get_char(d + 1)) {
                None => {
                    proof {
                        assert(!is_digit(fpart[0]));
                    }
                    return None;
                },
                Some(v) => v,
            };
            if flen == 1 {
                frac = (c1 as u64) * 10;
            } else {
                let c2 = match char_digit(s.get_char(d + 2)) {
                    None => {
                        proof {
                            assert(!is_digit(fpart[1]));
                        }
                        return None;
                    },
                    Some(v) => v,
                };
                frac = (c1 as u64) * 10 + (c2 as u64);
                proof {
                    assert(fpart =~= seq![s@[d + 1], s@[d + 2]]);
                    assert(fpart.drop_last() =~= seq![s@[d + 1]]);
                    assert(seq![s@[d + 1]].drop_last() =~= Seq::<char>::empty());
                    assert(digits_value(Seq::<char>::empty()) == 0);
                    assert(digits_value(seq![s@[d + 1]]) == c1);
                    assert(digits_value(fpart) == frac);
                }
            }
        }
        let mag: u64 = acc * 100 + frac;
        if mag > MAX_CENTS as u64 {
            return None;
        }
        let cents: i64 = if neg {
            -(mag as i64)
        } else {
            mag as i64
        };
        Some(Amount { cents })
    }

    /// The value in hundredths, always within [`MAX_CENTS`] in magnitude.
    pub fn cents(&self) -> (r: i64)
        ensures
            r == self.spec_cents(),
            -MAX_CENTS <= r <= MAX_CENTS,
    {
        proof {
            use_type_invariant(&*self);
        }
        self.cents
    }
}

/// Every character of a rendered value is a digit, a minus sign or a
/// decimal point; the rendering is never empty.
pub proof fn lemma_render_chars(c: int)
    ensures
        render_cents(c).len() > 0,
        forall|k: int|
            0 <= k < render_cents(c).len() ==> is_digit(#[trigger] render_cents(c)[k])
                || render_cents(c)[k] == '-' || render_cents(c)[k] == '.',
{
    let m = (if c < 0 {
        -c
    } else {
        c
    }) as nat;
    let whole = m / 100;
    let frac = m % 100;
    lemma_digits_of(whole);
    let w = digits_of(whole);
    let sign: Seq<char> = if c < 0 {
        seq!['-']
    } else {
        Seq::empty()
    };
    let s = render_cents(c);
    if frac == 0 {
        assert(forall|k: int|
            0 <= k < s.len() ==> s[k] == (if k < sign.len() {
                sign[k]
            } else {
                w[k - sign.len()]
            }));
    } else if frac % 10 == 0 {
        let tail = seq!['.', digit_char((frac / 10) as int)];
        assert(forall|k: int|
            0 <= k < s.len() ==> s[k] == (if k < sign.len() {
                sign[k]
            } else if k < sign.len() + w.len() {
                w[k - sign.len()]
            } else {
                tail[k - sign.len() - w.len()]
            }));
        assert(is_digit(tail[1]));
    } else {
        let tail = seq!['.', digit_char((frac / 10) as int), digit_char((frac % 10) as int)];
        assert(forall|k: int|
            0 <= k < s.len() ==> s[k] == (if k < sign.len() {
                sign[k]
            } else if k < sign.len() + w.len() {
                w[k - sign.len()]
            } else {
                tail[k - sign.len() - w.len()]
            }));
        assert(is_digit(tail[1]) && is_digit(tail[2]));
    }
}

/// Digits, the minus sign and the decimal point are not whitespace, not the
/// cell separator, and not a line break.
pub proof fn lemma_plain_char(ch: char)
    requires
        is_digit(ch) || ch == '-' || ch == '.',
    ensures
        !is_space(ch),
        ch != ',',
        ch != '\n',
{
}

/// Rendering an in-range count of hundredths and parsing the result gives
/// the same count back.
pub proof fn lemma_render_parse(c: int)
    requires
        -MAX_CENTS <= c <= MAX_CENTS,
    ensures
        amount_value(render_cents(c)) == Some(c),
{
    let s = render_cents(c);
    let m = (if c < 0 {
        -c
    } else {
        c
    }) as nat;
    let whole = m / 100;
    let frac = m % 100;
    lemma_digits_of(whole);
    let w = digits_of(whole);
    assert(is_digit(w[0]));
    // The sign is recognized exactly when c is negative.
    let neg = s.len() > 0 && s[0] == '-';
    let t: Seq<char> = if neg {
        s.drop_first()
    } else {
        s
    };
    if c < 0 {
        assert(s[0] == '-');
    } else {
        assert(s[0] == w[0]);
        assert(s[0] != '-');
    }
    if frac == 0 {
        assert(t =~= w);
        assert(spec_find(t, '.') == -1) by {
            crate::text::lemma_find(t, '.');
            if spec_find(t, '.') != -1 {
                assert(is_digit(t[spec_find(t, '.')]));
            }
        }
        assert(digits_value(w) * 100 + 0 == m);
    } else if frac % 10 == 0 {
        let d1 = digit_char((frac / 10) as int);
        assert(t =~= w + seq!['.', d1]);
        assert(forall|k: int| 0 <= k < w.len() ==> t[k] == w[k]);
        assert(t[w.len() as int] == '.');
        assert(spec_find(t, '.') == w.len() as int) by {
            assert(forall|k: int| 0 <= k < w.len() ==> is_digit(t[k]) && t[k] != '.');
            crate::text::lemma_find_is(t, '.', w.len() as int);
        }
        let ipart = t.take(w.len() as int);
        let fpart = t.skip(w.len() as int + 1);
        assert(ipart =~= w);
        assert(fpart =~= seq![d1]);
        assert(digit_val(d1) == frac / 10);
        assert(digit_val(d1) * 10 == frac);
        assert(digits_value(w) * 100 + frac == m);
    } else {
        let d1 = digit_char((frac / 10) as int);
        let d2 = digit_char((frac % 10) as int);
        assert(t =~= w + seq!['.', d1, d2]);
        assert(forall|k: int| 0 <= k < w.len() ==> t[k] == w[k]);
        assert(t[w.len() as int] == '.');
        assert(spec_find(t, '.') == w.len() as int) by {
            assert(forall|k: int| 0 <= k < w.len() ==> is_digit(t[k]) && t[k] != '.');
            crate::text::lemma_find_is(t, '.', w.len() as int);
        }
        let ipart = t.take(w.len() as int);
        let fpart = t.skip(w.len() as int + 1);
        assert(ipart =~= w);
        assert(fpart =~= seq![d1, d2]);
        assert(digit_val(d1) == frac / 10);
        assert(digit_val(d2) == frac % 10);
        assert(digits_value(fpart) == frac) by {
            assert(fpart.drop_last() =~= seq![d1]);
            assert(seq![d1].drop_last() =~= Seq::<char>::empty());
            assert(digits_value(Seq::<char>::empty()) == 0);
            assert(digits_value(seq![d1]) == frac / 10);
        }
        assert(digits_value(w) * 100 + frac == m);
    }
}

} // verus!
