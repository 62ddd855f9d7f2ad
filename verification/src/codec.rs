//! Codecs of the payload formats the engine speaks.
//!
//! Every ingress channel accepts a plain UTF-8 decimal payload; the
//! engage channel also accepts a JSON object `{"engaged": n}`. The
//! decimal decoder turns the text into the fixed-point thousandths the
//! engine computes with, truncating past the third fraction digit; the
//! encoder renders a fixed-point value back as the canonical decimal
//! text the actuation channel publishes.

use vstd::prelude::*;

verus! {

/// Greatest integer part the decimal decoder accepts (chosen so that the
/// scaled value always fits the fixed-point range).
pub const DECIMAL_INT_MAX: i64 = 9_223_372_036_854_774;

/// Whether `c` is an ASCII decimal digit.
pub open spec fn is_ascii_digit(c: u8) -> bool {
    48 <= c <= 57
}

/// Whether every byte of `s` is an ASCII decimal digit.
pub open spec fn all_ascii_digits(s: Seq<u8>) -> bool {
    forall|i: int| 0 <= i < s.len() ==> is_ascii_digit(#[trigger] s[i])
}

/// Numeric value of a digit string, most significant first.
pub open spec fn digits_val(s: Seq<u8>) -> int
    decreases s.len(),
{
    if s.len() == 0 {
        0
    } else {
        digits_val(s.drop_last()) * 10 + (s.last() - 48)
    }
}

/// Index of the first `.` in `s`, or -1 when there is none.
pub open spec fn dot_position(s: Seq<u8>) -> int
    decreases s.len(),
{
    if s.len() == 0 {
        -1
    } else if s[0] == 46 {
        0
    } else {
        let r = dot_position(s.drop_first());
        if r < 0 {
            -1
        } else {
            r + 1
        }
    }
}

/// Fraction digit `i` of a digit string, zero past its end.
pub open spec fn frac_digit(s: Seq<u8>, i: int) -> int {
    if i < s.len() {
        s[i] - 48
    } else {
        0
    }
}

/// Thousandths denoted by a fraction digit string, truncated past the
/// third digit.
pub open spec fn frac_milli(s: Seq<u8>) -> int {
    100 * frac_digit(s, 0) + 10 * frac_digit(s, 1) + frac_digit(s, 2)
}

/// The value, in thousandths, that a plain decimal payload denotes:
/// an optional sign, a digit string, and an optional fraction after one
/// `.`. Nothing when the payload has any other shape or its integer part
/// exceeds `DECIMAL_INT_MAX`.
pub open spec fn spec_decimal_milli(s: Seq<u8>) -> Option<int> {
    let signed = s.len() > 0 && (s[0] == 43 || s[0] == 45);
    let negative = s.len() > 0 && s[0] == 45;
    let body = if signed {
        s.drop_first()
    } else {
        s
    };
    let k = dot_position(body);
    let intpart = if k < 0 {
        body
    } else {
        body.take(k)
    };
    let fracpart = if k < 0 {
        Seq::<u8>::empty()
    } else {
        body.skip(k + 1)
    };
    if intpart.len() == 0 || !all_ascii_digits(intpart) || !all_ascii_digits(fracpart) {
        Option::None
    } else if digits_val(intpart) > DECIMAL_INT_MAX {
        Option::None
    } else {
        let mag = digits_val(intpart) * 1000 + frac_milli(fracpart);
        Option::Some(
            if negative {
                -mag
            } else {
                mag
            },
        )
    }
}

/// The engage value a plain decimal payload denotes: an optional `+`
/// and a digit string no greater than 255.
pub open spec fn spec_engage_text(s: Seq<u8>) -> Option<u8> {
    let body = if s.len() > 0 && s[0] == 43 {
        s.drop_first()
    } else {
        s
    };
    if body.len() == 0 || !all_ascii_digits(body) {
        Option::None
    } else if digits_val(body) > 255 {
        Option::None
    } else {
        Option::Some(digits_val(body) as u8)
    }
}

/// A digit string denotes a value no less than zero.
proof fn lemma_digits_val_nonneg(s: Seq<u8>)
    requires
        all_ascii_digits(s),
    ensures
        digits_val(s) >= 0,
    decreases s.len(),
{
    if s.len() > 0 {
        assert(all_ascii_digits(s.drop_last())) by {
            assert(forall|i: int|
                0 <= i < s.len() - 1 ==> #[trigger] s.drop_last()[i] == s[i]);
        }
        lemma_digits_val_nonneg(s.drop_last());
    }
}

/// Extending a digit string never shrinks its value.
proof fn lemma_digits_val_prefix(s: Seq<u8>, i: int)
    requires
        all_ascii_digits(s),
        0 <= i <= s.len(),
    ensures
        digits_val(s.take(i)) <= digits_val(s),
    decreases s.len() - i,
{
    if i < s.len() {
        lemma_digits_val_prefix(s, i + 1);
        assert(s.take(i + 1).drop_last() =~= s.take(i));
        assert(s.take(i + 1).last() == s[i]);
        assert(all_ascii_digits(s.take(i))) by {
            assert(forall|m: int| 0 <= m < i ==> #[trigger] s.take(i)[m] == s[m]);
        }
        lemma_digits_val_nonneg(s.take(i));
        assert(digits_val(s.take(i + 1)) == digits_val(s.take(i)) * 10 + (s[i] - 48));
        assert(digits_val(s.take(i)) * 10 >= digits_val(s.take(i))) by (nonlinear_arith)
            requires digits_val(s.take(i)) >= 0;
    } else {
        assert(s.take(i) =~= s);
    }
}

/// The first `.` of a string that has no `.` before `k` and one at `k`
/// (or none at all) stands at `k`.
proof fn lemma_dot_position_at(s: Seq<u8>, k: int)
    requires
        0 <= k <= s.len(),
        forall|m: int| 0 <= m < k ==> s[m] != 46,
        k < s.len() ==> s[k] == 46,
    ensures
        dot_position(s) == if k == s.len() {
            -1int
        } else {
            k
        },
    decreases s.len(),
{
    if s.len() == 0 {
    } else if k == 0 {
    } else {
        assert(forall|m: int|
            0 <= m < k - 1 ==> #[trigger] s.drop_first()[m] == s[m + 1]);
        lemma_dot_position_at(s.drop_first(), k - 1);
    }
}

/// Decode a plain decimal payload to fixed-point thousandths. The result
/// is exactly the value `spec_decimal_milli` assigns to the bytes.
#[verifier::loop_isolation(false)]
#[verifier::rlimit(100)]
pub fn decode_decimal_milli(payload: &[u8]) -> (r: Option<i64>)
    ensures
        match spec_decimal_milli(payload@) {
            Option::Some(v) => r matches Option::Some(x) && x == v,
            Option::None => r is None,
        },
{
    let n = payload.len();
    let signed = n > 0 && (payload[0] == 43 || payload[0] == 45);
    let negative = n > 0 && payload[0] == 45;
    let start: usize = if signed {
        1
    } else {
        0
    };
    let ghost body = payload@.skip(start as int);
    proof {
        assert(body =~= (if signed {
            payload@.drop_first()
        } else {
            payload@
        }));
    }

    // Find the first dot of the body, if any.
    let mut j: usize = start;
    while j < n && payload[j] != 46
        invariant
            start <= j <= n,
            n == payload@.len(),
            forall|m: int| start <= m < j ==> payload@[m] != 46,
        decreases n - j,
    {
        j += 1;
    }
    let dot: usize = j;
    proof {
        assert(forall|m: int| 0 <= m < body.len() ==> body[m] == payload@[start + m]);
        lemma_dot_position_at(body, dot - start);
    }
    let int_end: usize = if dot < n {
        dot
    } else {
        n
    };
    let ghost intpart = if dot_position(body) < 0 {
        body
    } else {
        body.take(dot_position(body))
    };
    proof {
        assert(intpart =~= payload@.subrange(start as int, int_end as int));
    }

    if int_end == start {
        return Option::None;
    }

    // Accumulate the integer part, refusing values past the cap.
    let mut acc: i64 = 0;
    let mut i: usize = start;
    while i < int_end
        invariant
            start <= i <= int_end <= n,
            n == payload@.len(),
            intpart =~= payload@.subrange(start as int, int_end as int),
            all_ascii_digits(intpart.take(i - start)),
            0 <= acc <= DECIMAL_INT_MAX,
            acc == digits_val(intpart.take(i - start)),
        decreases int_end - i,
    {
        let c = payload[i];
        if c < 48 || c > 57 {
            proof {
                assert(intpart[i - start] == payload@[i as int]);
                assert(!all_ascii_digits(intpart));
            }
            return Option::None;
        }
        proof {
            assert(intpart.take(i - start + 1).drop_last() =~= intpart.take(i - start));
            assert(intpart.take(i - start + 1).last() == payload@[i as int]);
        }
        let d = (c - 48) as i64;
        if acc > (DECIMAL_INT_MAX - d) / 10 {
            proof {
                assert(digits_val(intpart.take(i - start + 1)) == acc * 10 + d);
                assert(acc * 10 + d > DECIMAL_INT_MAX);
                if all_ascii_digits(intpart) {
                    lemma_digits_val_prefix(intpart, i - start + 1);
                }
            }
            return Option::None;
        }
        acc = acc * 10 + d;
        i += 1;
    }
    proof {
        assert(intpart.take(int_end - start) =~= intpart);
    }

    // Check the fraction digits and read the first three.
    let mut f3: i64 = 0;
    let ghost fracpart = if dot_position(body) < 0 {
        Seq::<u8>::empty()
    } else {
        body.skip(dot_position(body) + 1)
    };
    if dot < n {
        proof {
            assert(forall|m: int|
                0 <= m < fracpart.len() ==> fracpart[m] == payload@[dot + 1 + m]);
        }
        let mut k: usize = dot + 1;
        while k < n
            invariant
                dot + 1 <= k <= n,
                n == payload@.len(),
                dot < n,
                fracpart.len() == n - dot - 1,
                forall|m: int| 0 <= m < fracpart.len() ==> fracpart[m] == payload@[dot + 1 + m],
                forall|m: int| 0 <= m < k - dot - 1 ==> is_ascii_digit(#[trigger] fracpart[m]),
            decreases n - k,
        {
            let c = payload[k];
            if c < 48 || c > 57 {
                proof {
                    assert(!is_ascii_digit(fracpart[k - dot - 1]));
                }
                return Option::None;
            }
            k += 1;
        }
        if n - dot >= 2 {
            f3 = 100 * ((payload[dot + 1] - 48) as i64);
        }
        if n - dot >= 3 {
            f3 = f3 + 10 * ((payload[dot + 2] - 48) as i64);
        }
        if n - dot >= 4 {
            f3 = f3 + ((payload[dot + 3] - 48) as i64);
        }
        proof {
            assert(f3 == frac_milli(fracpart));
        }
    }

    let mag = acc * 1000 + f3;
    let value = if negative {
        -mag
    } else {
        mag
    };
    Option::Some(value)
}

/// Decode a plain decimal engage payload. The result is exactly the
/// value `spec_engage_text` assigns to the bytes.
#[verifier::loop_isolation(false)]
pub fn decode_engage_text(payload: &[u8]) -> (r: Option<u8>)
    ensures
        r == spec_engage_text(payload@),
{
    let n = payload.len();
    let start: usize = if n > 0 && payload[0] == 43 {
        1
    } else {
        0
    };
    let ghost body = payload@.skip(start as int);
    proof {
        assert(body =~= (if start == 1 {
            payload@.drop_first()
        } else {
            payload@
        }));
        assert(forall|m: int| 0 <= m < body.len() ==> body[m] == payload@[start + m]);
    }
    if start == n {
        return Option::None;
    }
    let mut acc: i64 = 0;
    let mut i: usize = start;
    while i < n
        invariant
            start <= i <= n,
            start < n,
            n == payload@.len(),
            body == payload@.skip(start as int),
            body.len() == n - start,
            forall|m: int| 0 <= m < body.len() ==> body[m] == payload@[start + m],
            all_ascii_digits(body.take(i - start)),
            0 <= acc <= 255,
            acc == digits_val(body.take(i - start)),
        decreases n - i,
    {
        let c = payload[i];
        if c < 48 || c > 57 {
            proof {
                assert(!is_ascii_digit(body[i - start]));
            }
            return Option::None;
        }
        proof {
            assert(body.take(i - start + 1).drop_last() =~= body.take(i - start));
            assert(body.take(i - start + 1).last() == payload@[i as int]);
        }
        let d = (c - 48) as i64;
        if acc > 25 || (acc == 25 && d > 5) {
            proof {
                assert(digits_val(body.take(i - start + 1)) == acc * 10 + d);
                if all_ascii_digits(body) {
                    lemma_digits_val_prefix(body, i - start + 1);
                }
            }
            return Option::None;
        }
        acc = acc * 10 + d;
        i += 1;
    }
    proof {
        assert(body.take(n - start) =~= body);
    }
    Option::Some(acc as u8)
}

/// The decimal digit string of `n`, most significant digit first.
pub open spec fn decimal_digits(n: int) -> Seq<u8>
    decreases n,
{
    if n < 10 {
        seq![(n + 48) as u8]
    } else {
        decimal_digits(n / 10).push((n % 10 + 48) as u8)
    }
}

/// The digit string of `n` is all digits and denotes `n`.
proof fn lemma_decimal_digits(n: int)
    requires
        n >= 0,
    ensures
        all_ascii_digits(decimal_digits(n)),
        digits_val(decimal_digits(n)) == n,
        decimal_digits(n).len() >= 1,
    decreases n,
{
    if n < 10 {
        let s = decimal_digits(n);
        assert(s.len() == 1);
        assert(s.last() == (n + 48) as u8);
        assert(s.drop_last() =~= Seq::<u8>::empty());
        assert(digits_val(s.drop_last()) == 0);
        assert(forall|i: int| 0 <= i < s.len() ==> is_ascii_digit(#[trigger] s[i]));
    } else {
        lemma_decimal_digits(n / 10);
        vstd::arithmetic::div_mod::lemma_fundamental_div_mod(n, 10);
        let p = decimal_digits(n / 10);
        let s = decimal_digits(n);
        assert(s.drop_last() =~= p);
        assert(forall|i: int| 0 <= i < s.len() ==> is_ascii_digit(#[trigger] s[i])) by {
            assert(forall|i: int| 0 <= i < p.len() ==> s[i] == #[trigger] p[i]);
            assert(0 <= n % 10 < 10);
        }
    }
}

/// Append the decimal digits of `n` to `out`.
fn push_decimal_digits(n: i64, out: &mut Vec<u8>)
    requires
        n >= 0,
    ensures
        final(out)@ == old(out)@ + decimal_digits(n as int),
    decreases n,
{
    if n >= 10 {
        push_decimal_digits(n / 10, out);
    }
    out.push((n % 10 + 48) as u8);
    proof {
        assert(out@ =~= old(out)@ + decimal_digits(n as int));
    }
}

/// Render a fixed-point value as the canonical decimal text: a minus
/// sign when negative, the whole units, and the nonzero thousandths
/// after a point with trailing zeros dropped. Decoding the rendered
/// bytes gives the value back exactly.
pub fn encode_decimal_milli(value: i64) -> (r: Vec<u8>)
    requires
        -9_223_372_036_854_774_999 <= value <= 9_223_372_036_854_774_999,
    ensures
        spec_decimal_milli(r@) == Option::Some(value as int),
{
    let mut out: Vec<u8> = Vec::new();
    let negative = value < 0;
    if negative {
        out.push(45);
    }
    let mag = if value >= 0 {
        value
    } else {
        -value
    };
    let whole = mag / 1000;
    let frac = mag % 1000;
    let ghost intdigits = decimal_digits(whole as int);
    proof {
        lemma_decimal_digits(whole as int);
        vstd::arithmetic::div_mod::lemma_fundamental_div_mod(mag as int, 1000);
        vstd::arithmetic::div_mod::lemma_div_is_ordered(mag as int, 9_223_372_036_854_774_999int,
            1000);
    }
    push_decimal_digits(whole, &mut out);
    if frac != 0 {
        out.push(46);
        let d1 = frac / 100;
        let rem = frac % 100;
        let d2 = rem / 10;
        let d3 = rem % 10;
        proof {
            vstd::arithmetic::div_mod::lemma_fundamental_div_mod(frac as int, 100);
            vstd::arithmetic::div_mod::lemma_fundamental_div_mod(rem as int, 10);
        }
        out.push((d1 + 48) as u8);
        if d2 != 0 || d3 != 0 {
            out.push((d2 + 48) as u8);
        }
        if d3 != 0 {
            out.push((d3 + 48) as u8);
        }
        proof {
            let fracdigits = if d3 != 0 {
                seq![(d1 + 48) as u8, (d2 + 48) as u8, (d3 + 48) as u8]
            } else if d2 != 0 {
                seq![(d1 + 48) as u8, (d2 + 48) as u8]
            } else {
                seq![(d1 + 48) as u8]
            };
            assert(out@ =~= (if negative {
                seq![45u8]
            } else {
                Seq::<u8>::empty()
            }) + intdigits + seq![46u8] + fracdigits);
            lemma_encoded_form(out@, negative, intdigits, whole as int, frac as int, d1 as int,
                d2 as int, d3 as int);
            assert(value as int == if negative {
                -(whole * 1000 + frac)
            } else {
                whole * 1000 + frac
            });
        }
    } else {
        proof {
            let body = if negative {
                out@.drop_first()
            } else {
                out@
            };
            assert(body =~= intdigits);
            lemma_dot_position_at(body, body.len() as int);
            assert(out@[0] == if negative {
                45u8
            } else {
                intdigits[0]
            });
            assert(value as int == if negative {
                -(whole * 1000)
            } else {
                whole * 1000
            });
        }
    }
    out
}

/// A byte string of the shape `['-'] digits '.' (one to three fraction
/// digits, trailing zeros dropped)` decodes to the value it was built
/// from.
proof fn lemma_encoded_form(
    s: Seq<u8>,
    negative: bool,
    intdigits: Seq<u8>,
    whole: int,
    frac: int,
    d1: int,
    d2: int,
    d3: int,
)
    requires
        all_ascii_digits(intdigits),
        intdigits.len() >= 1,
        digits_val(intdigits) == whole,
        0 <= whole <= DECIMAL_INT_MAX,
        0 <= d1 < 10,
        0 <= d2 < 10,
        0 <= d3 < 10,
        frac == 100 * d1 + 10 * d2 + d3,
        frac != 0,
        s == (if negative {
            seq![45u8]
        } else {
            Seq::<u8>::empty()
        }) + intdigits + seq![46u8] + (if d3 != 0 {
            seq![(d1 + 48) as u8, (d2 + 48) as u8, (d3 + 48) as u8]
        } else if d2 != 0 {
            seq![(d1 + 48) as u8, (d2 + 48) as u8]
        } else {
            seq![(d1 + 48) as u8]
        }),
    ensures
        spec_decimal_milli(s) == Option::Some(
            if negative {
                -(whole * 1000 + frac)
            } else {
                whole * 1000 + frac
            },
        ),
{
    let fracdigits = if d3 != 0 {
        seq![(d1 + 48) as u8, (d2 + 48) as u8, (d3 + 48) as u8]
    } else if d2 != 0 {
        seq![(d1 + 48) as u8, (d2 + 48) as u8]
    } else {
        seq![(d1 + 48) as u8]
    };
    let body = if negative {
        s.drop_first()
    } else {
        s
    };
    assert(body =~= intdigits + seq![46u8] + fracdigits);
    let k = intdigits.len() as int;
    assert(forall|m: int| 0 <= m < k ==> body[m] == #[trigger] intdigits[m]);
    assert(body[k] == 46);
    lemma_dot_position_at(body, k);
    assert(body.take(k) =~= intdigits);
    assert(body.skip(k + 1) =~= fracdigits);
    assert(frac_milli(fracdigits) == frac);
    assert(s[0] == (if negative {
        45u8
    } else {
        intdigits[0]
    }));
}

/// The engage value that parsing a payload as a JSON object
/// `{"engaged": n}` yields: a function of the bytes alone.
pub uninterp spec fn json_engaged_of(s: Seq<u8>) -> Option<u8>;

/// Relies on serde_json: `from_slice` parses a JSON document from the
/// bytes alone, and `Value::get` / `Value::as_u64` read its `engaged`
/// member when it is an object with an integral member of that name.
#[verifier::external_body]
fn engaged_of_json(payload: &[u8]) -> (r: Option<u8>)
    ensures
        r == json_engaged_of(payload@),
{
    match serde_json::from_slice::<serde_json::Value>(payload) {
        Ok(v) => v.get("engaged").and_then(|e| e.as_u64()).and_then(|u| u8::try_from(u).ok()),
        Err(_) => None,
    }
}

/// Decode an engage payload: a plain decimal first, then the JSON form
/// as the fallback, as the ingress contract prescribes.
pub fn decode_engage(payload: &[u8]) -> (r: Option<u8>)
    ensures
        spec_engage_text(payload@) is Some ==> r == spec_engage_text(payload@),
        spec_engage_text(payload@) is None ==> r == json_engaged_of(payload@),
{
    match decode_engage_text(payload) {
        Option::Some(v) => Option::Some(v),
        Option::None => engaged_of_json(payload),
    }
}

} // verus!
