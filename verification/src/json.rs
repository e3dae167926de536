//! The result-object grammar that the external objective-function process
//! must write to its standard output: a JSON object whose optional
//! `objFuncVal` member holds a number or null. The grammar is stated as
//! spec functions over the raw bytes; the executable parser mirrors them
//! and is proved to return exactly what they define. The numeric value is
//! handed out as the bytes of the number literal, unconverted.

use vstd::prelude::*;

verus! {

/// JSON insignificant whitespace: space, tab, line feed, carriage return.
pub open spec fn is_ws(b: u8) -> bool {
    b == 0x20 || b == 0x09 || b == 0x0a || b == 0x0d
}

/// An ASCII decimal digit.
pub open spec fn is_digit(b: u8) -> bool {
    0x30 <= b && b <= 0x39
}

/// An ASCII hexadecimal digit.
pub open spec fn is_hex(b: u8) -> bool {
    is_digit(b) || (0x41 <= b && b <= 0x46) || (0x61 <= b && b <= 0x66)
}

/// A character that may follow a backslash as a one-letter escape:
/// `" \ / b f n r t`.
pub open spec fn is_simple_escape(b: u8) -> bool {
    b == 0x22 || b == 0x5c || b == 0x2f || b == 0x62 || b == 0x66 || b == 0x6e || b == 0x72
        || b == 0x74
}

/// The first index at or after `i` that does not hold whitespace.
pub open spec fn sp_ws(s: Seq<u8>, i: int) -> int
    decreases s.len() - i,
{
    if 0 <= i && i < s.len() && is_ws(s[i]) {
        sp_ws(s, i + 1)
    } else {
        i
    }
}

/// The first index at or after `i` that does not hold a digit.
pub open spec fn sp_digits(s: Seq<u8>, i: int) -> int
    decreases s.len() - i,
{
    if 0 <= i && i < s.len() && is_digit(s[i]) {
        sp_digits(s, i + 1)
    } else {
        i
    }
}

/// End of the optional exponent part starting at `m`.
pub open spec fn sp_exp(s: Seq<u8>, m: int) -> Option<int> {
    if 0 <= m && m < s.len() && (s[m] == 0x65 || s[m] == 0x45) {
        // 'e' or 'E', then an optional sign, then at least one digit
        let p = if m + 1 < s.len() && (s[m + 1] == 0x2b || s[m + 1] == 0x2d) {
            m + 2
        } else {
            m + 1
        };
        if p < s.len() && is_digit(s[p]) {
            Some(sp_digits(s, p))
        } else {
            None
        }
    } else {
        Some(m)
    }
}

/// End of the optional fraction part starting at `k`, then the exponent.
pub open spec fn sp_frac(s: Seq<u8>, k: int) -> Option<int> {
    if 0 <= k && k < s.len() && s[k] == 0x2e {
        // '.', then at least one digit
        if k + 1 < s.len() && is_digit(s[k + 1]) {
            sp_exp(s, sp_digits(s, k + 1))
        } else {
            None
        }
    } else {
        sp_exp(s, k)
    }
}

/// End of a JSON number starting exactly at `i`: an optional minus sign, an
/// integer part with no leading zero, an optional fraction, an optional
/// exponent. `None` when no number starts at `i`.
pub open spec fn sp_number(s: Seq<u8>, i: int) -> Option<int> {
    if 0 <= i {
        let j = if i < s.len() && s[i] == 0x2d {
            i + 1
        } else {
            i
        };
        if j < s.len() && is_digit(s[j]) {
            let k = if s[j] == 0x30 {
                j + 1
            } else {
                sp_digits(s, j)
            };
            sp_frac(s, k)
        } else {
            None
        }
    } else {
        None
    }
}

/// End of a JSON string whose opening quote stands just before `i`: the
/// index after the closing quote, or `None` when the string is unterminated,
/// holds a raw control byte, or holds a malformed escape.
pub open spec fn sp_string_body(s: Seq<u8>, i: int) -> Option<int>
    decreases s.len() - i,
{
    if !(0 <= i && i < s.len()) {
        None
    } else if s[i] == 0x22 {
        // closing '"'
        Some(i + 1)
    } else if s[i] == 0x5c {
        // '\': a one-letter escape or \u followed by four hex digits
        if i + 1 < s.len() && is_simple_escape(s[i + 1]) {
            sp_string_body(s, i + 2)
        } else if i + 5 < s.len() && s[i + 1] == 0x75 && is_hex(s[i + 2]) && is_hex(s[i + 3])
            && is_hex(s[i + 4]) && is_hex(s[i + 5]) {
            sp_string_body(s, i + 6)
        } else {
            None
        }
    } else if s[i] < 0x20 {
        None
    } else {
        sp_string_body(s, i + 1)
    }
}

/// End of one JSON value starting exactly at `i`. The bound checks on the
/// results of the nested calls keep the definition well-founded; they always
/// hold of what those calls actually return.
pub open spec fn sp_value(s: Seq<u8>, i: int) -> Option<int>
    decreases s.len() - i, 0int,
{
    if !(0 <= i && i < s.len()) {
        None
    } else if s[i] == 0x6e {
        // "null"
        if i + 4 <= s.len() && s[i + 1] == 0x75 && s[i + 2] == 0x6c && s[i + 3] == 0x6c {
            Some(i + 4)
        } else {
            None
        }
    } else if s[i] == 0x74 {
        // "true"
        if i + 4 <= s.len() && s[i + 1] == 0x72 && s[i + 2] == 0x75 && s[i + 3] == 0x65 {
            Some(i + 4)
        } else {
            None
        }
    } else if s[i] == 0x66 {
        // "false"
        if i + 5 <= s.len() && s[i + 1] == 0x61 && s[i + 2] == 0x6c && s[i + 3] == 0x73
            && s[i + 4] == 0x65 {
            Some(i + 5)
        } else {
            None
        }
    } else if s[i] == 0x22 {
        // a string
        sp_string_body(s, i + 1)
    } else if s[i] == 0x2d || is_digit(s[i]) {
        sp_number(s, i)
    } else if s[i] == 0x5b {
        // '[': an array
        let j = sp_ws(s, i + 1);
        if i + 1 <= j && j < s.len() {
            if s[j] == 0x5d {
                Some(j + 1)
            } else {
                sp_elements(s, j)
            }
        } else {
            None
        }
    } else if s[i] == 0x7b {
        // '{': an object
        let j = sp_ws(s, i + 1);
        if i + 1 <= j && j < s.len() {
            if s[j] == 0x7d {
                Some(j + 1)
            } else {
                sp_members(s, j)
            }
        } else {
            None
        }
    } else {
        None
    }
}

/// End of a comma-separated list of array elements starting at `i` (first
/// element, no leading whitespace), up to and including the closing `]`.
pub open spec fn sp_elements(s: Seq<u8>, i: int) -> Option<int>
    decreases s.len() - i, 1int,
{
    match sp_value(s, i) {
        None => None,
        Some(k) => {
            if i < k && k <= s.len() {
                let m = sp_ws(s, k);
                if k <= m && m < s.len() {
                    if s[m] == 0x5d {
                        Some(m + 1)
                    } else if s[m] == 0x2c {
                        let j = sp_ws(s, m + 1);
                        if m + 1 <= j && j <= s.len() {
                            sp_elements(s, j)
                        } else {
                            None
                        }
                    } else {
                        None
                    }
                } else {
                    None
                }
            } else {
                None
            }
        },
    }
}

/// End of a comma-separated list of object members starting at `i` (opening
/// quote of the first key), up to and including the closing `}`.
pub open spec fn sp_members(s: Seq<u8>, i: int) -> Option<int>
    decreases s.len() - i, 1int,
{
    if !(0 <= i && i < s.len() && s[i] == 0x22) {
        None
    } else {
        match sp_string_body(s, i + 1) {
            None => None,
            Some(k) => {
                if i + 1 < k && k <= s.len() {
                    let m = sp_ws(s, k);
                    if k <= m && m < s.len() && s[m] == 0x3a {
                        // ':'
                        let v = sp_ws(s, m + 1);
                        if m + 1 <= v && v <= s.len() {
                            match sp_value(s, v) {
                                None => None,
                                Some(e) => {
                                    if v < e && e <= s.len() {
                                        let w = sp_ws(s, e);
                                        if e <= w && w < s.len() {
                                            if s[w] == 0x7d {
                                                Some(w + 1)
                                            } else if s[w] == 0x2c {
                                                let nx = sp_ws(s, w + 1);
                                                if w + 1 <= nx && nx <= s.len() {
                                                    sp_members(s, nx)
                                                } else {
                                                    None
                                                }
                                            } else {
                                                None
                                            }
                                        } else {
                                            None
                                        }
                                    } else {
                                        None
                                    }
                                },
                            }
                        } else {
                            None
                        }
                    } else {
                        None
                    }
                } else {
                    None
                }
            },
        }
    }
}

/// The key bytes `objFuncVal`, compared in place: the key spans `a..b`.
pub open spec fn key_match(s: Seq<u8>, a: int, b: int) -> bool {
    &&& b - a == 10
    &&& 0 <= a
    &&& b <= s.len()
    &&& s[a] == 0x6f      // o
    &&& s[a + 1] == 0x62  // b
    &&& s[a + 2] == 0x6a  // j
    &&& s[a + 3] == 0x46  // F
    &&& s[a + 4] == 0x75  // u
    &&& s[a + 5] == 0x6e  // n
    &&& s[a + 6] == 0x63  // c
    &&& s[a + 7] == 0x56  // V
    &&& s[a + 8] == 0x61  // a
    &&& s[a + 9] == 0x6c  // l
}

/// Walk the members of the top-level object, starting at the opening quote
/// of a key, carrying what the `objFuncVal` member held so far: `None` when
/// not yet seen, `Some(None)` for null, `Some(Some((a, b)))` for a number
/// literal spanning `a..b`. The member's value must be null or a number; a
/// second `objFuncVal` member, or one of any other type, is malformed. The
/// result pairs the final field record with the index after the closing `}`.
pub open spec fn sp_top_members(s: Seq<u8>, i: int, found: Option<Option<(int, int)>>) -> Option<
    (Option<Option<(int, int)>>, int),
>
    decreases s.len() - i,
{
    if !(0 <= i && i < s.len() && s[i] == 0x22) {
        None
    } else {
        match sp_string_body(s, i + 1) {
            None => None,
            Some(k) => {
                if i + 1 < k && k <= s.len() {
                    let m = sp_ws(s, k);
                    if k <= m && m < s.len() && s[m] == 0x3a {
                        let v = sp_ws(s, m + 1);
                        if m + 1 <= v && v <= s.len() {
                            match sp_value(s, v) {
                                None => None,
                                Some(e) => {
                                    if v < e && e <= s.len() {
                                        let key_hit = key_match(s, i + 1, k - 1);
                                        if key_hit && found is Some {
                                            None
                                        } else if key_hit && !(s[v] == 0x6e || s[v] == 0x2d
                                            || is_digit(s[v])) {
                                            None
                                        } else {
                                            let found2 = if key_hit {
                                                if s[v] == 0x6e {
                                                    Some(None::<(int, int)>)
                                                } else {
                                                    Some(Some((v, e)))
                                                }
                                            } else {
                                                found
                                            };
                                            let w = sp_ws(s, e);
                                            if e <= w && w < s.len() {
                                                if s[w] == 0x7d {
                                                    Some((found2, w + 1))
                                                } else if s[w] == 0x2c {
                                                    let nx = sp_ws(s, w + 1);
                                                    if w + 1 <= nx && nx <= s.len() {
                                                        sp_top_members(s, nx, found2)
                                                    } else {
                                                        None
                                                    }
                                                } else {
                                                    None
                                                }
                                            } else {
                                                None
                                            }
                                        }
                                    } else {
                                        None
                                    }
                                },
                            }
                        } else {
                            None
                        }
                    } else {
                        None
                    }
                } else {
                    None
                }
            },
        }
    }
}

/// The whole child output: whitespace, one object, whitespace, end of
/// input. `None` when malformed; otherwise the `objFuncVal` field record
/// with the number literal as a span.
pub open spec fn sp_child_result(s: Seq<u8>) -> Option<Option<(int, int)>> {
    let i = sp_ws(s, 0);
    if 0 <= i && i < s.len() && s[i] == 0x7b {
        let j = sp_ws(s, i + 1);
        if i + 1 <= j && j < s.len() {
            if s[j] == 0x7d {
                if sp_ws(s, j + 1) == s.len() {
                    Some(None)
                } else {
                    None
                }
            } else {
                match sp_top_members(s, j, None) {
                    None => None,
                    Some((found, e)) => {
                        if sp_ws(s, e) == s.len() {
                            Some(
                                match found {
                                    None => None,
                                    Some(fv) => fv,
                                },
                            )
                        } else {
                            None
                        }
                    },
                }
            }
        } else {
            None
        }
    } else {
        None
    }
}

/// The parsed objective value of child output `s`: `None` when `s` is not a
/// well-formed result object; `Some(None)` when the `objFuncVal` member is
/// absent or null; `Some(Some(t))` with `t` the bytes of its number literal.
pub open spec fn child_obj_val(s: Seq<u8>) -> Option<Option<Seq<u8>>> {
    match sp_child_result(s) {
        None => None,
        Some(None) => Some(None),
        Some(Some((a, b))) => {
            if 0 <= a && a <= b && b <= s.len() {
                Some(Some(s.subrange(a, b)))
            } else {
                None
            }
        },
    }
}

/// A spec-level scan result shifted by an offset.
pub open spec fn opt_shift(m: Option<int>, p: int) -> Option<int> {
    match m {
        None => None,
        Some(y) => Some(p + y),
    }
}

/// A byte that can follow a number literal without extending it.
pub open spec fn hard_boundary(b: u8) -> bool {
    !is_digit(b) && b != 0x2e && b != 0x65 && b != 0x45 && b != 0x2b && b != 0x2d
}

/// The embedding of `t` in `c` at offset `p`, with nothing after the window
/// that a number scan could consume.
pub open spec fn embedded(t: Seq<u8>, c: Seq<u8>, p: int) -> bool {
    &&& 0 <= p
    &&& p + t.len() <= c.len()
    &&& (forall|q: int| 0 <= q < t.len() ==> c[p + q] == #[trigger] t[q])
    &&& (p + t.len() == c.len() || hard_boundary(c[p + t.len()]))
}

proof fn lemma_digits_bounds(t: Seq<u8>, x: int)
    requires
        0 <= x <= t.len(),
    ensures
        x <= sp_digits(t, x) <= t.len(),
    decreases t.len() - x,
{
    if x < t.len() && is_digit(t[x]) {
        lemma_digits_bounds(t, x + 1);
    }
}

proof fn lemma_digits_embed(t: Seq<u8>, c: Seq<u8>, p: int, x: int)
    requires
        embedded(t, c, p),
        0 <= x <= t.len(),
    ensures
        sp_digits(c, p + x) == p + sp_digits(t, x),
    decreases t.len() - x,
{
    if x < t.len() && is_digit(t[x]) {
        lemma_digits_embed(t, c, p, x + 1);
    }
}

proof fn lemma_exp_embed(t: Seq<u8>, c: Seq<u8>, p: int, m: int)
    requires
        embedded(t, c, p),
        0 <= m <= t.len(),
    ensures
        sp_exp(c, p + m) == opt_shift(sp_exp(t, m), p),
{
    if m < t.len() && (t[m] == 0x65 || t[m] == 0x45) {
        let pt = if m + 1 < t.len() && (t[m + 1] == 0x2b || t[m + 1] == 0x2d) {
            m + 2
        } else {
            m + 1
        };
        if pt < t.len() && is_digit(t[pt]) {
            lemma_digits_embed(t, c, p, pt);
        }
    }
}

proof fn lemma_frac_embed(t: Seq<u8>, c: Seq<u8>, p: int, k: int)
    requires
        embedded(t, c, p),
        0 <= k <= t.len(),
    ensures
        sp_frac(c, p + k) == opt_shift(sp_frac(t, k), p),
{
    if k < t.len() && t[k] == 0x2e {
        if k + 1 < t.len() && is_digit(t[k + 1]) {
            lemma_digits_bounds(t, k + 1);
            lemma_digits_embed(t, c, p, k + 1);
            lemma_exp_embed(t, c, p, sp_digits(t, k + 1));
        }
    } else {
        lemma_exp_embed(t, c, p, k);
    }
}

proof fn lemma_number_embed(t: Seq<u8>, c: Seq<u8>, p: int)
    requires
        embedded(t, c, p),
    ensures
        sp_number(c, p) == opt_shift(sp_number(t, 0), p),
{
    let j: int = if 0 < t.len() && t[0] == 0x2d {
        1
    } else {
        0
    };
    if j < t.len() && is_digit(t[j]) {
        if t[j] == 0x30 {
            lemma_frac_embed(t, c, p, j + 1);
        } else {
            lemma_digits_bounds(t, j);
            lemma_digits_embed(t, c, p, j);
            lemma_frac_embed(t, c, p, sp_digits(t, j));
        }
    }
}

/// The span `a..b` of `s` is exactly one well-formed number literal.
pub open spec fn span_is_number(s: Seq<u8>, a: int, b: int) -> bool {
    &&& 0 <= a <= b <= s.len()
    &&& sp_number(s.subrange(a, b), 0) == Some(b - a)
}

proof fn lemma_top_members_span_sound(s: Seq<u8>, i: int, found: Option<Option<(int, int)>>)
    requires
        0 <= i,
        (found matches Some(Some(p)) ==> span_is_number(s, p.0, p.1)),
    ensures
        (match sp_top_members(s, i, found) {
            Some(r) => (match r.0 {
                Some(Some(p)) => span_is_number(s, p.0, p.1),
                _ => true,
            }),
            None => true,
        }),
    decreases s.len() - i,
{
    if 0 <= i && i < s.len() && s[i] == 0x22 {
        match sp_string_body(s, i + 1) {
            None => {},
            Some(k) => {
                if i + 1 < k && k <= s.len() {
                    let m = sp_ws(s, k);
                    if k <= m && m < s.len() && s[m] == 0x3a {
                        let v = sp_ws(s, m + 1);
                        if m + 1 <= v && v <= s.len() {
                            match sp_value(s, v) {
                                None => {},
                                Some(e) => {
                                    if v < e && e <= s.len() {
                                        let key_hit = key_match(s, i + 1, k - 1);
                                        if key_hit && found is Some {
                                        } else if key_hit && !(s[v] == 0x6e || s[v] == 0x2d
                                            || is_digit(s[v])) {
                                        } else {
                                            let found2 = if key_hit {
                                                if s[v] == 0x6e {
                                                    Some(None::<(int, int)>)
                                                } else {
                                                    Some(Some((v, e)))
                                                }
                                            } else {
                                                found
                                            };
                                            let w = sp_ws(s, e);
                                            if e <= w && w < s.len() && (s[w] == 0x7d || s[w]
                                                == 0x2c) {
                                                if key_hit && s[v] != 0x6e {
                                                    // the byte at `e` stopped the scan: it is
                                                    // whitespace, the comma, or the brace
                                                    if w != e {
                                                        assert(is_ws(s[e]));
                                                    }
                                                    assert(hard_boundary(s[e]));
                                                    let t = s.subrange(v, e);
                                                    assert forall|q: int|
                                                        0 <= q < t.len() implies s[v + q]
                                                        == #[trigger] t[q] by {
                                                        assert(t[q] == s[v + q]);
                                                    }
                                                    assert(embedded(t, s, v));
                                                    assert(sp_number(s, v) == Some(e));
                                                    lemma_number_embed(t, s, v);
                                                    assert(span_is_number(s, v, e));
                                                }
                                                if s[w] == 0x2c {
                                                    let nx = sp_ws(s, w + 1);
                                                    if w + 1 <= nx && nx <= s.len() {
                                                        lemma_top_members_span_sound(
                                                            s,
                                                            nx,
                                                            found2,
                                                        );
                                                    }
                                                }
                                            }
                                        }
                                    }
                                },
                            }
                        }
                    }
                }
            },
        }
    }
}

/// Law: every number literal the parser hands out is itself a well-formed
/// number — scanned alone, it is consumed exactly to its end. What the
/// library returns as an objective value therefore always reads as a number.
pub proof fn lemma_parsed_literal_well_formed(s: Seq<u8>)
    ensures
        (child_obj_val(s) matches Some(Some(t)) ==> sp_number(t, 0) == Some(t.len() as int)),
{
    match sp_child_result(s) {
        Some(Some((a, b))) => {
            let i = sp_ws(s, 0);
            let j = sp_ws(s, i + 1);
            lemma_top_members_span_sound(s, j, None);
        },
        _ => {},
    }
}

/// The canonical success output: `{"objFuncVal":` then the literal, then `}`.
pub open spec fn canonical_output(t: Seq<u8>) -> Seq<u8> {
    seq![
        0x7bu8,  // {
        0x22u8,  // "
        0x6fu8,
        0x62u8,
        0x6au8,
        0x46u8,
        0x75u8,
        0x6eu8,
        0x63u8,
        0x56u8,
        0x61u8,
        0x6cu8,  // objFuncVal
        0x22u8,  // "
        0x3au8,  // :
    ] + t + seq![0x7du8]
}

/// Law: the parser is complete on the interface's canonical success shape.
/// For every well-formed number literal, the output that frames it as the
/// `objFuncVal` member parses to exactly that literal.
pub proof fn lemma_canonical_output_parses(t: Seq<u8>)
    requires
        sp_number(t, 0) == Some(t.len() as int),
    ensures
        child_obj_val(canonical_output(t)) == Some(Some(t)),
{
    let c = canonical_output(t);
    assert(c.len() == 15 + t.len());
    assert(c[0] == 0x7b && c[1] == 0x22 && c[2] == 0x6f && c[3] == 0x62 && c[4] == 0x6a && c[5]
        == 0x46 && c[6] == 0x75 && c[7] == 0x6e && c[8] == 0x63 && c[9] == 0x56 && c[10] == 0x61
        && c[11] == 0x6c && c[12] == 0x22 && c[13] == 0x3a);
    assert(c[15 + t.len() - 1] == 0x7d);
    assert forall|q: int| 0 <= q < t.len() implies c[14 + q] == #[trigger] t[q] by {
        assert(c[14 + q] == t[q]);
    }
    assert(embedded(t, c, 14));
    // the literal starts with a sign or digit, so it is not whitespace
    assert(0 < t.len() && (t[0] == 0x2d || is_digit(t[0])));
    assert(!is_ws(c[14]) && c[14] != 0x6e);

    assert(sp_ws(c, 0) == 0);
    assert(sp_ws(c, 1) == 1);
    // the key string: ten plain bytes, then the closing quote
    assert(sp_string_body(c, 12) == Some(13int));
    assert(sp_string_body(c, 11) == Some(13int));
    assert(sp_string_body(c, 10) == Some(13int));
    assert(sp_string_body(c, 9) == Some(13int));
    assert(sp_string_body(c, 8) == Some(13int));
    assert(sp_string_body(c, 7) == Some(13int));
    assert(sp_string_body(c, 6) == Some(13int));
    assert(sp_string_body(c, 5) == Some(13int));
    assert(sp_string_body(c, 4) == Some(13int));
    assert(sp_string_body(c, 3) == Some(13int));
    assert(sp_string_body(c, 2) == Some(13int));
    assert(sp_ws(c, 13) == 13);
    assert(sp_ws(c, 14) == 14);
    lemma_number_embed(t, c, 14);
    assert(sp_value(c, 14) == Some(14 + t.len() as int));
    assert(key_match(c, 2, 12));
    let e: int = 14 + t.len() as int;
    assert(sp_ws(c, e) == e);
    assert(c[e] == 0x7d);
    assert(sp_top_members(c, 1, None) == Some(
        (Some(Some((14int, 14 + t.len() as int))), 15 + t.len() as int),
    ));
    assert(sp_ws(c, 15 + t.len() as int) == 15 + t.len() as int);
    assert(sp_child_result(c) == Some(Some((14int, 14 + t.len() as int))));
    assert(c.subrange(14, 14 + t.len() as int) =~= t);
}

/// Law: the output that frames a null `objFuncVal` member parses to
/// "no objective value produced", which is a success, not a failure.
pub proof fn lemma_canonical_null_output_parses()
    ensures
        child_obj_val(canonical_output(seq![0x6eu8, 0x75u8, 0x6cu8, 0x6cu8])) == Some(
            None::<Seq<u8>>,
        ),
{
    let c = canonical_output(seq![0x6eu8, 0x75u8, 0x6cu8, 0x6cu8]);
    assert(c.len() == 19);
    assert(c[0] == 0x7b && c[1] == 0x22 && c[2] == 0x6f && c[3] == 0x62 && c[4] == 0x6a && c[5]
        == 0x46 && c[6] == 0x75 && c[7] == 0x6e && c[8] == 0x63 && c[9] == 0x56 && c[10] == 0x61
        && c[11] == 0x6c && c[12] == 0x22 && c[13] == 0x3a);
    assert(c[14] == 0x6e && c[15] == 0x75 && c[16] == 0x6c && c[17] == 0x6c && c[18] == 0x7d);
    assert(sp_ws(c, 0) == 0);
    assert(sp_ws(c, 1) == 1);
    assert(sp_string_body(c, 12) == Some(13int));
    assert(sp_string_body(c, 11) == Some(13int));
    assert(sp_string_body(c, 10) == Some(13int));
    assert(sp_string_body(c, 9) == Some(13int));
    assert(sp_string_body(c, 8) == Some(13int));
    assert(sp_string_body(c, 7) == Some(13int));
    assert(sp_string_body(c, 6) == Some(13int));
    assert(sp_string_body(c, 5) == Some(13int));
    assert(sp_string_body(c, 4) == Some(13int));
    assert(sp_string_body(c, 3) == Some(13int));
    assert(sp_string_body(c, 2) == Some(13int));
    assert(sp_ws(c, 13) == 13);
    assert(sp_ws(c, 14) == 14);
    assert(sp_value(c, 14) == Some(18int));
    assert(key_match(c, 2, 12));
    assert(sp_ws(c, 18) == 18);
    assert(sp_top_members(c, 1, None) == Some((Some(None::<(int, int)>), 19int)));
    assert(sp_ws(c, 19) == 19);
    assert(sp_child_result(c) == Some(None::<(int, int)>));
}

/// Law: an empty result object parses to "no objective value produced":
/// an absent member and a null member read the same.
pub proof fn lemma_empty_object_parses()
    ensures
        child_obj_val(seq![0x7bu8, 0x7du8]) == Some(None::<Seq<u8>>),
{
    let c = seq![0x7bu8, 0x7du8];
    assert(sp_ws(c, 0) == 0);
    assert(sp_ws(c, 1) == 1);
    assert(sp_ws(c, 2) == 2);
    assert(sp_child_result(c) == Some(None::<(int, int)>));
}

/// An executable index option agrees with a spec-level one.
pub open spec fn opt_idx_eq(r: Option<usize>, m: Option<int>) -> bool {
    match r {
        None => m is None,
        Some(k) => m == Some(k as int),
    }
}

/// The executable field record lifted to the spec-level one.
pub open spec fn lift_found(f: Option<Option<(usize, usize)>>) -> Option<Option<(int, int)>> {
    match f {
        None => None,
        Some(None) => Some(None),
        Some(Some(p)) => Some(Some((p.0 as int, p.1 as int))),
    }
}

/// The executable member-walk result agrees with the spec-level one.
pub open spec fn top_eq(
    r: Option<(Option<Option<(usize, usize)>>, usize)>,
    m: Option<(Option<Option<(int, int)>>, int)>,
) -> bool {
    match r {
        None => m is None,
        Some((f, e)) => m == Some((lift_found(f), e as int)),
    }
}

/// The executable parse result agrees with the spec-level objective value.
pub open spec fn parsed_eq(r: Option<Option<Vec<u8>>>, m: Option<Option<Seq<u8>>>) -> bool {
    match r {
        None => m is None,
        Some(None) => m == Some(None::<Seq<u8>>),
        Some(Some(t)) => m == Some(Some(t@)),
    }
}

fn ws_byte(b: u8) -> (r: bool)
    ensures
        r == is_ws(b),
{
    b == 0x20 || b == 0x09 || b == 0x0a || b == 0x0d
}

fn digit_byte(b: u8) -> (r: bool)
    ensures
        r == is_digit(b),
{
    0x30 <= b && b <= 0x39
}

fn hex_byte(b: u8) -> (r: bool)
    ensures
        r == is_hex(b),
{
    digit_byte(b) || (0x41 <= b && b <= 0x46) || (0x61 <= b && b <= 0x66)
}

fn simple_escape_byte(b: u8) -> (r: bool)
    ensures
        r == is_simple_escape(b),
{
    b == 0x22 || b == 0x5c || b == 0x2f || b == 0x62 || b == 0x66 || b == 0x6e || b == 0x72
        || b == 0x74
}

fn ws_end(s: &[u8], i: usize) -> (r: usize)
    requires
        i <= s.len(),
    ensures
        r as int == sp_ws(s@, i as int),
        i <= r && r <= s.len(),
{
    let mut k = i;
    while k < s.len() && ws_byte(s[k])
        invariant
            i <= k && k <= s.len(),
            sp_ws(s@, i as int) == sp_ws(s@, k as int),
        decreases s.len() - k,
    {
        k = k + 1;
    }
    k
}

fn digits_end(s: &[u8], i: usize) -> (r: usize)
    requires
        i <= s.len(),
    ensures
        r as int == sp_digits(s@, i as int),
        i <= r && r <= s.len(),
{
    let mut k = i;
    while k < s.len() && digit_byte(s[k])
        invariant
            i <= k && k <= s.len(),
            sp_digits(s@, i as int) == sp_digits(s@, k as int),
        decreases s.len() - k,
    {
        k = k + 1;
    }
    k
}

fn exp_end(s: &[u8], m: usize) -> (r: Option<usize>)
    requires
        m <= s.len(),
    ensures
        opt_idx_eq(r, sp_exp(s@, m as int)),
        (r matches Some(e) ==> m <= e && e <= s.len()),
{
    if m < s.len() && (s[m] == 0x65 || s[m] == 0x45) {
        let p = if m + 1 < s.len() && (s[m + 1] == 0x2b || s[m + 1] == 0x2d) {
            m + 2
        } else {
            m + 1
        };
        if p < s.len() && digit_byte(s[p]) {
            Some(digits_end(s, p))
        } else {
            None
        }
    } else {
        Some(m)
    }
}

fn frac_end(s: &[u8], k: usize) -> (r: Option<usize>)
    requires
        k <= s.len(),
    ensures
        opt_idx_eq(r, sp_frac(s@, k as int)),
        (r matches Some(e) ==> k <= e && e <= s.len()),
{
    if k < s.len() && s[k] == 0x2e {
        if k + 1 < s.len() && digit_byte(s[k + 1]) {
            let d = digits_end(s, k + 1);
            exp_end(s, d)
        } else {
            None
        }
    } else {
        exp_end(s, k)
    }
}

fn number_end(s: &[u8], i: usize) -> (r: Option<usize>)
    requires
        i <= s.len(),
    ensures
        opt_idx_eq(r, sp_number(s@, i as int)),
        (r matches Some(e) ==> i < e && e <= s.len()),
{
    let j = if i < s.len() && s[i] == 0x2d {
        i + 1
    } else {
        i
    };
    if j < s.len() && digit_byte(s[j]) {
        let k = if s[j] == 0x30 {
            j + 1
        } else {
            assert(sp_digits(s@, j as int) == sp_digits(s@, j as int + 1));
            digits_end(s, j + 1)
        };
        frac_end(s, k)
    } else {
        None
    }
}

fn string_body_end(s: &[u8], i: usize) -> (r: Option<usize>)
    requires
        i <= s.len(),
    ensures
        opt_idx_eq(r, sp_string_body(s@, i as int)),
        (r matches Some(e) ==> i < e && e <= s.len()),
{
    let mut k = i;
    loop
        invariant
            i <= k && k <= s.len(),
            sp_string_body(s@, i as int) == sp_string_body(s@, k as int),
        decreases s.len() - k,
    {
        if k >= s.len() {
            return None;
        }
        let b = s[k];
        if b == 0x22 {
            return Some(k + 1);
        }
        if b == 0x5c {
            if k + 1 < s.len() && simple_escape_byte(s[k + 1]) {
                k = k + 2;
            } else if s.len() - k > 5 && s[k + 1] == 0x75 && hex_byte(s[k + 2]) && hex_byte(
                s[k + 3],
            ) && hex_byte(s[k + 4]) && hex_byte(s[k + 5]) {
                k = k + 6;
            } else {
                return None;
            }
        } else if b < 0x20 {
            return None;
        } else {
            k = k + 1;
        }
    }
}

fn value_end(s: &[u8], i: usize) -> (r: Option<usize>)
    requires
        i <= s.len(),
    ensures
        opt_idx_eq(r, sp_value(s@, i as int)),
        (r matches Some(e) ==> i < e && e <= s.len()),
    decreases s.len() - i, 0int,
{
    if i >= s.len() {
        return None;
    }
    let b = s[i];
    if b == 0x6e {
        if s.len() - i >= 4 && s[i + 1] == 0x75 && s[i + 2] == 0x6c && s[i + 3] == 0x6c {
            Some(i + 4)
        } else {
            None
        }
    } else if b == 0x74 {
        if s.len() - i >= 4 && s[i + 1] == 0x72 && s[i + 2] == 0x75 && s[i + 3] == 0x65 {
            Some(i + 4)
        } else {
            None
        }
    } else if b == 0x66 {
        if s.len() - i >= 5 && s[i + 1] == 0x61 && s[i + 2] == 0x6c && s[i + 3] == 0x73 && s[i + 4]
            == 0x65 {
            Some(i + 5)
        } else {
            None
        }
    } else if b == 0x22 {
        string_body_end(s, i + 1)
    } else if b == 0x2d || digit_byte(b) {
        number_end(s, i)
    } else if b == 0x5b {
        let j = ws_end(s, i + 1);
        if j < s.len() {
            if s[j] == 0x5d {
                Some(j + 1)
            } else {
                elements_end(s, j)
            }
        } else {
            None
        }
    } else if b == 0x7b {
        let j = ws_end(s, i + 1);
        if j < s.len() {
            if s[j] == 0x7d {
                Some(j + 1)
            } else {
                members_end(s, j)
            }
        } else {
            None
        }
    } else {
        None
    }
}

fn elements_end(s: &[u8], i: usize) -> (r: Option<usize>)
    requires
        i <= s.len(),
    ensures
        opt_idx_eq(r, sp_elements(s@, i as int)),
        (r matches Some(e) ==> i < e && e <= s.len()),
    decreases s.len() - i, 1int,
{
    match value_end(s, i) {
        None => None,
        Some(k) => {
            let m = ws_end(s, k);
            if m < s.len() {
                if s[m] == 0x5d {
                    Some(m + 1)
                } else if s[m] == 0x2c {
                    let j = ws_end(s, m + 1);
                    elements_end(s, j)
                } else {
                    None
                }
            } else {
                None
            }
        },
    }
}

fn members_end(s: &[u8], i: usize) -> (r: Option<usize>)
    requires
        i <= s.len(),
    ensures
        opt_idx_eq(r, sp_members(s@, i as int)),
        (r matches Some(e) ==> i < e && e <= s.len()),
    decreases s.len() - i, 1int,
{
    if !(i < s.len() && s[i] == 0x22) {
        return None;
    }
    match string_body_end(s, i + 1) {
        None => None,
        Some(k) => {
            let m = ws_end(s, k);
            if m < s.len() && s[m] == 0x3a {
                let v = ws_end(s, m + 1);
                match value_end(s, v) {
                    None => None,
                    Some(e) => {
                        let w = ws_end(s, e);
                        if w < s.len() {
                            if s[w] == 0x7d {
                                Some(w + 1)
                            } else if s[w] == 0x2c {
                                let nx = ws_end(s, w + 1);
                                members_end(s, nx)
                            } else {
                                None
                            }
                        } else {
                            None
                        }
                    },
                }
            } else {
                None
            }
        },
    }
}

fn key_is(s: &[u8], a: usize, b: usize) -> (r: bool)
    requires
        a <= s.len(),
        b <= s.len(),
    ensures
        r == key_match(s@, a as int, b as int),
{
    b >= a && b - a == 10 && s[a] == 0x6f && s[a + 1] == 0x62 && s[a + 2] == 0x6a && s[a + 3]
        == 0x46 && s[a + 4] == 0x75 && s[a + 5] == 0x6e && s[a + 6] == 0x63 && s[a + 7] == 0x56
        && s[a + 8] == 0x61 && s[a + 9] == 0x6c
}

fn top_members_end(s: &[u8], i: usize, found: Option<Option<(usize, usize)>>) -> (r: Option<
    (Option<Option<(usize, usize)>>, usize),
>)
    requires
        i <= s.len(),
    ensures
        top_eq(r, sp_top_members(s@, i as int, lift_found(found))),
        (r matches Some(p) ==> p.1 <= s.len()),
    decreases s.len() - i,
{
    if !(i < s.len() && s[i] == 0x22) {
        return None;
    }
    match string_body_end(s, i + 1) {
        None => None,
        Some(k) => {
            let m = ws_end(s, k);
            if m < s.len() && s[m] == 0x3a {
                let v = ws_end(s, m + 1);
                match value_end(s, v) {
                    None => None,
                    Some(e) => {
                        assert(v < s.len());
                        let key_hit = key_is(s, i + 1, k - 1);
                        let sv = s[v];
                        if key_hit && found.is_some() {
                            return None;
                        }
                        if key_hit && !(sv == 0x6e || sv == 0x2d || digit_byte(sv)) {
                            return None;
                        }
                        let found2 = if key_hit {
                            if sv == 0x6e {
                                Some(None::<(usize, usize)>)
                            } else {
                                Some(Some((v, e)))
                            }
                        } else {
                            found
                        };
                        let w = ws_end(s, e);
                        if w < s.len() {
                            if s[w] == 0x7d {
                                Some((found2, w + 1))
                            } else if s[w] == 0x2c {
                                let nx = ws_end(s, w + 1);
                                top_members_end(s, nx, found2)
                            } else {
                                None
                            }
                        } else {
                            None
                        }
                    },
                }
            } else {
                None
            }
        },
    }
}

fn copy_range(s: &[u8], a: usize, b: usize) -> (r: Vec<u8>)
    requires
        a <= b && b <= s.len(),
    ensures
        r@ == s@.subrange(a as int, b as int),
{
    let mut v: Vec<u8> = Vec::new();
    let mut k = a;
    while k < b
        invariant
            a <= k && k <= b && b <= s.len(),
            v@ == s@.subrange(a as int, k as int),
        decreases b - k,
    {
        v.push(s[k]);
        assert(s@.subrange(a as int, k + 1) =~= s@.subrange(a as int, k as int).push(
            s@[k as int],
        ));
        k = k + 1;
    }
    v
}

/// Parse one captured standard output as the child result object. Returns
/// exactly what the grammar defines: `None` for malformed output,
/// `Some(None)` when no objective value was produced, `Some(Some(t))` with
/// the bytes of the objective's number literal.
pub fn parse_child_output(s: &[u8]) -> (r: Option<Option<Vec<u8>>>)
    ensures
        parsed_eq(r, child_obj_val(s@)),
{
    let i = ws_end(s, 0);
    if i < s.len() && s[i] == 0x7b {
        let j = ws_end(s, i + 1);
        if j < s.len() {
            if s[j] == 0x7d {
                if ws_end(s, j + 1) == s.len() {
                    Some(None)
                } else {
                    None
                }
            } else {
                match top_members_end(s, j, None) {
                    None => None,
                    Some((found, e)) => {
                        if ws_end(s, e) == s.len() {
                            match found {
                                None => Some(None),
                                Some(None) => Some(None),
                                Some(Some((a, b))) => {
                                    if a <= b && b <= s.len() {
                                        Some(Some(copy_range(s, a, b)))
                                    } else {
                                        None
                                    }
                                },
                            }
                        } else {
                            None
                        }
                    },
                }
            }
        } else {
            None
        }
    } else {
        None
    }
}

} // verus!
