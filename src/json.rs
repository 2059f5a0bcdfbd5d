use vstd::prelude::*;

verus! {

/// The sixteen lower-case hexadecimal digits, in order.
pub open spec fn hex_digits() -> Seq<char> {
    "0123456789abcdef"@
}

/// The decimal digit or hexadecimal digit `d` as text.
pub open spec fn digit_text(d: int) -> Seq<char> {
    hex_digits().subrange(d, d + 1)
}

/// Decimal rendering of an unsigned integer, without leading zeros.
pub open spec fn decimal(n: nat) -> Seq<char>
    decreases n,
{
    if n < 10 {
        digit_text(n as int)
    } else {
        decimal(n / 10) + digit_text((n % 10) as int)
    }
}

/// How one character stands inside a JSON string literal.
pub open spec fn escape_char(c: char) -> Seq<char> {
    if c == '"' {
        "\\\""@
    } else if c == '\\' {
        "\\\\"@
    } else if (c as u32) < 0x20 {
        "\\u00"@ + digit_text((c as u32 / 16) as int) + digit_text((c as u32 % 16) as int)
    } else {
        seq![c]
    }
}

/// The characters of `s` escaped for a JSON string literal.
pub open spec fn escape(s: Seq<char>) -> Seq<char>
    decreases s.len(),
{
    if s.len() == 0 {
        Seq::empty()
    } else {
        escape(s.drop_last()) + escape_char(s.last())
    }
}

/// `s` as a JSON string literal.
pub open spec fn json_string(s: Seq<char>) -> Seq<char> {
    "\""@ + escape(s) + "\""@
}

/// The texts of `es` joined by commas.
pub open spec fn join(es: Seq<Seq<char>>) -> Seq<char>
    decreases es.len(),
{
    if es.len() == 0 {
        Seq::empty()
    } else if es.len() == 1 {
        es[0]
    } else {
        join(es.drop_last()) + ","@ + es.last()
    }
}

proof fn lemma_hex_len()
    ensures
        hex_digits().len() == 16,
{
    reveal_strlit("0123456789abcdef");
}

fn digit(d: u32) -> (r: &'static str)
    requires
        d < 16,
    ensures
        r@ == digit_text(d as int),
{
    proof {
        lemma_hex_len();
    }
    "0123456789abcdef".substring_char(d as usize, d as usize + 1)
}

/// Appends the decimal rendering of `n` to `out`.
pub fn append_decimal(out: &mut String, n: u64)
    ensures
        final(out)@ == old(out)@ + decimal(n as nat),
    decreases n,
{
    if n < 10 {
        out.append(digit(n as u32));
    } else {
        append_decimal(out, n / 10);
        out.append(digit((n % 10) as u32));
    }
}

/// Appends `s` to `out` as a JSON string literal.
pub fn append_json_string(out: &mut String, s: &str)
    ensures
        final(out)@ == old(out)@ + json_string(s@),
{
    let ghost start = out@;
    out.append("\"");
    let n = s.unicode_len();
    let mut i: usize = 0;
    while i < n
        invariant
            n == s@.len(),
            i <= n,
            out@ == start + "\""@ + escape(s@.subrange(0, i as int)),
        decreases n - i,
    {
        let c = s.get_char(i);
        let ghost before = out@;
        if c == '"' {
            out.append("\\\"");
        } else if c == '\\' {
            out.append("\\\\");
        } else if (c as u32) < 0x20 {
            out.append("\\u00");
            out.append(digit(c as u32 / 16));
            out.append(digit(c as u32 % 16));
        } else {
            out.append(s.substring_char(i, i + 1));
            assert(s@.subrange(i as int, i + 1) =~= seq![c]);
        }
        assert(out@ =~= before + escape_char(c));
        assert(s@.subrange(0, i + 1).drop_last() =~= s@.subrange(0, i as int));
        i = i + 1;
    }
    assert(s@.subrange(0, n as int) =~= s@);
    out.append("\"");
    assert(out@ =~= start + json_string(s@));
}

} // verus!

verus! {

/// The value of a lower-case hexadecimal digit.
pub open spec fn hex_value(c: char) -> int {
    if '0' <= c && c <= '9' {
        c as int - '0' as int
    } else {
        c as int - 'a' as int + 10
    }
}

/// Whether `c` is a lower-case hexadecimal digit.
pub open spec fn is_hex(c: char) -> bool {
    ('0' <= c && c <= '9') || ('a' <= c && c <= 'f')
}

/// The character with code point `v`.
pub open spec fn char_of(v: int) -> char {
    (v as u32) as char
}

/// Decodes the body of a JSON string literal up to its closing quote: the
/// decoded characters and the text after the quote.
pub open spec fn parse_string_body(t: Seq<char>) -> Option<(Seq<char>, Seq<char>)>
    decreases t.len(),
{
    if t.len() == 0 {
        None
    } else if t[0] == '"' {
        Some((Seq::empty(), t.drop_first()))
    } else if t[0] == '\\' {
        if t.len() >= 2 && (t[1] == '"' || t[1] == '\\') {
            match parse_string_body(t.subrange(2, t.len() as int)) {
                Some((s, rest)) => Some((seq![t[1]] + s, rest)),
                None => None,
            }
        } else if t.len() >= 6 && t[1] == 'u' && t[2] == '0' && t[3] == '0' && is_hex(t[4])
            && is_hex(t[5]) {
            match parse_string_body(t.subrange(6, t.len() as int)) {
                Some((s, rest)) => Some(
                    (seq![char_of(16 * hex_value(t[4]) + hex_value(t[5]))] + s, rest),
                ),
                None => None,
            }
        } else {
            None
        }
    } else {
        match parse_string_body(t.drop_first()) {
            Some((s, rest)) => Some((seq![t[0]] + s, rest)),
            None => None,
        }
    }
}

/// Decodes a JSON string literal at the front of `t`: its characters and
/// the text after it.
pub open spec fn parse_string(t: Seq<char>) -> Option<(Seq<char>, Seq<char>)> {
    if t.len() > 0 && t[0] == '"' {
        parse_string_body(t.drop_first())
    } else {
        None
    }
}

proof fn lemma_escape_append(a: Seq<char>, b: Seq<char>)
    ensures
        escape(a + b) == escape(a) + escape(b),
    decreases b.len(),
{
    if b.len() == 0 {
        assert(a + b =~= a);
        assert(escape(a) + escape(b) =~= escape(a));
    } else {
        assert((a + b).drop_last() =~= a + b.drop_last());
        lemma_escape_append(a, b.drop_last());
        assert(escape(a + b) =~= escape(a) + escape(b));
    }
}

proof fn lemma_escape_front(s: Seq<char>)
    requires
        s.len() > 0,
    ensures
        escape(s) == escape_char(s[0]) + escape(s.drop_first()),
{
    lemma_escape_append(seq![s[0]], s.drop_first());
    assert(seq![s[0]] + s.drop_first() =~= s);
    assert(seq![s[0]].drop_last() =~= Seq::<char>::empty());
    assert(escape(seq![s[0]]) =~= escape(Seq::<char>::empty()) + escape_char(s[0]));
    assert(escape(seq![s[0]]) =~= escape_char(s[0]));
}

proof fn lemma_hex_digit(d: int)
    requires
        0 <= d < 16,
    ensures
        digit_text(d).len() == 1,
        is_hex(digit_text(d)[0]),
        hex_value(digit_text(d)[0]) == d,
{
    reveal_strlit("0123456789abcdef");
}

/// Escaping is undone by decoding: the body of a string literal built from
/// `s` decodes back to `s`, and decoding stops right after its closing quote.
pub proof fn lemma_string_body_round_trip(s: Seq<char>, rest: Seq<char>)
    ensures
        parse_string_body(escape(s) + "\""@ + rest) == Some((s, rest)),
    decreases s.len(),
{
    reveal_strlit("\"");
    let t = escape(s) + "\""@ + rest;
    if s.len() == 0 {
        assert(t =~= "\""@ + rest);
        assert(t.drop_first() =~= rest);
    } else {
        let c = s[0];
        let tail = s.drop_first();
        lemma_escape_front(s);
        lemma_string_body_round_trip(tail, rest);
        let u = escape(tail) + "\""@ + rest;
        assert(t =~= escape_char(c) + u);
        if c == '"' {
            reveal_strlit("\\\"");
            assert(t.subrange(2, t.len() as int) =~= u);
        } else if c == '\\' {
            reveal_strlit("\\\\");
            assert(t.subrange(2, t.len() as int) =~= u);
        } else if (c as u32) < 0x20 {
            reveal_strlit("\\u00");
            let hi = (c as u32 / 16) as int;
            let lo = (c as u32 % 16) as int;
            lemma_hex_digit(hi);
            lemma_hex_digit(lo);
            assert(t[4] == digit_text(hi)[0]);
            assert(t[5] == digit_text(lo)[0]);
            assert(t.subrange(6, t.len() as int) =~= u);
            assert(16 * hi + lo == c as u32);
            vstd::utf8::char_u32_cast(c, c as u32);
        } else {
            assert(t[0] == c);
            assert(t.drop_first() =~= u);
        }
        assert(seq![c] + tail =~= s);
    }
}

/// A string literal built from `s` decodes back to `s`, leaving what follows it.
pub proof fn lemma_string_round_trip(s: Seq<char>, rest: Seq<char>)
    ensures
        parse_string(json_string(s) + rest) == Some((s, rest)),
{
    reveal_strlit("\"");
    lemma_string_body_round_trip(s, rest);
    assert((json_string(s) + rest).drop_first() =~= escape(s) + "\""@ + rest);
}

} // verus!

verus! {

/// Whether `c` is a decimal digit.
pub open spec fn is_digit(c: char) -> bool {
    '0' <= c && c <= '9'
}

/// Whether every character of `t` is a decimal digit.
pub open spec fn all_digits(t: Seq<char>) -> bool {
    forall|i: int| 0 <= i < t.len() ==> is_digit(#[trigger] t[i])
}

/// The integer part of a JSON number: digits without a leading zero.
pub open spec fn integer_token(t: Seq<char>) -> bool {
    t.len() > 0 && all_digits(t) && (t.len() == 1 || t[0] != '0')
}

/// An unsigned JSON number without exponent: an integer part, then
/// optionally `.` and one or more digits.
pub open spec fn unsigned_token(t: Seq<char>) -> bool {
    integer_token(t) || exists|p: int|
        0 < p < t.len() - 1 && #[trigger] t[p] == '.' && integer_token(t.subrange(0, p))
            && all_digits(t.subrange(p + 1, t.len() as int))
}

/// Whether `t` is a JSON number token (of the form without exponent).
pub open spec fn json_number(t: Seq<char>) -> bool {
    if t.len() > 0 && t[0] == '-' {
        unsigned_token(t.drop_first())
    } else {
        unsigned_token(t)
    }
}

/// A number's text as a JSON value: the text itself where it is a JSON
/// number, else a JSON string holding it (`inf`, `NaN`).
pub open spec fn number_json(t: Seq<char>) -> Seq<char> {
    if json_number(t) {
        t
    } else {
        json_string(t)
    }
}

fn digit_char(c: char) -> (r: bool)
    ensures
        r == is_digit(c),
{
    '0' <= c && c <= '9'
}

fn unsigned_token_at(s: &str, start: usize) -> (r: bool)
    requires
        start <= s@.len(),
    ensures
        r == unsigned_token(s@.subrange(start as int, s@.len() as int)),
{
    let n = s.unicode_len();
    let ghost t = s@.subrange(start as int, n as int);
    let mut q: usize = start;
    while q < n && digit_char(s.get_char(q))
        invariant
            n == s@.len(),
            start <= q <= n,
            t == s@.subrange(start as int, n as int),
            forall|i: int| 0 <= i < q - start ==> is_digit(#[trigger] t[i]),
        decreases n - q,
    {
        q = q + 1;
    }
    let m = q - start;
    assert(m < t.len() ==> !is_digit(t[m as int]));
    assert forall|p: int|
        0 < p < t.len() - 1 && #[trigger] t[p] == '.' && integer_token(t.subrange(0, p)) implies p
        == m by {
        if p < m {
            assert(is_digit(t[p]));
        } else if p > m {
            assert(t.subrange(0, p)[m as int] == t[m as int]);
        }
    }
    if m == 0 {
        proof {
            if t.len() > 0 {
                assert(!is_digit(t[0]));
                assert forall|p: int|
                    0 < p < t.len() - 1 && #[trigger] t[p] == '.' implies !integer_token(
                    t.subrange(0, p),
                ) by {
                    assert(t.subrange(0, p)[0] == t[0]);
                }
            }
        }
        return false;
    }
    if m > 1 && s.get_char(start) == '0' {
        assert forall|p: int|
            0 < p < t.len() - 1 && #[trigger] t[p] == '.' implies !integer_token(
            t.subrange(0, p),
        ) by {
            if integer_token(t.subrange(0, p)) {
                assert(p == m);
                assert(t.subrange(0, p)[0] == t[0]);
            }
        }
        return false;
    }
    if q == n {
        assert(all_digits(t));
        return true;
    }
    if s.get_char(q) != '.' || q + 1 >= n {
        return false;
    }
    let mut k: usize = q + 1;
    while k < n && digit_char(s.get_char(k))
        invariant
            n == s@.len(),
            start <= q < n,
            q + 1 <= k <= n,
            t == s@.subrange(start as int, n as int),
            forall|i: int| q + 1 - start <= i < k - start ==> is_digit(#[trigger] t[i]),
        decreases n - k,
    {
        assert(t[k - start] == s@[k as int]);
        k = k + 1;
    }
    let ghost frac = t.subrange(m + 1, t.len() as int);
    assert(integer_token(t.subrange(0, m as int)) <==> true) by {
        assert forall|i: int| 0 <= i < m implies is_digit(#[trigger] t.subrange(0, m as int)[i]) by {
            assert(t.subrange(0, m as int)[i] == t[i]);
        }
    }
    if k == n {
        assert forall|i: int| 0 <= i < frac.len() implies is_digit(#[trigger] frac[i]) by {
            assert(frac[i] == t[m + 1 + i]);
        }
        assert(t[m as int] == '.');
        true
    } else {
        assert(frac[k - q - 1] == t[k - start]);
        assert(!all_digits(frac));
        false
    }
}

/// Whether `s` is a JSON number token.
pub fn is_json_number(s: &str) -> (r: bool)
    ensures
        r == json_number(s@),
{
    if s.unicode_len() > 0 && s.get_char(0) == '-' {
        assert(s@.subrange(1, s@.len() as int) =~= s@.drop_first());
        unsigned_token_at(s, 1)
    } else {
        assert(s@.subrange(0, s@.len() as int) =~= s@);
        unsigned_token_at(s, 0)
    }
}

/// Appends a number's text to `out` as a JSON value.
pub fn append_number_json(out: &mut String, text: &str)
    ensures
        final(out)@ == old(out)@ + number_json(text@),
{
    if is_json_number(text) {
        out.append(text);
    } else {
        append_json_string(out, text);
    }
}

/// A number's text as a JSON value is either a JSON number token or a JSON
/// string that decodes back to the text.
pub proof fn lemma_number_json_is_json(t: Seq<char>, rest: Seq<char>)
    ensures
        json_number(number_json(t)) || parse_string(number_json(t) + rest) == Some((t, rest)),
{
    if !json_number(t) {
        lemma_string_round_trip(t, rest);
    }
}

} // verus!

verus! {

/// Whether `s` holds no NUL character.
pub open spec fn nul_free(s: Seq<char>) -> bool {
    forall|i: int| 0 <= i < s.len() ==> s[i] != '\0'
}

pub proof fn lemma_nul_free_concat(a: Seq<char>, b: Seq<char>)
    requires
        nul_free(a),
        nul_free(b),
    ensures
        nul_free(a + b),
{
    assert forall|i: int| 0 <= i < (a + b).len() implies (a + b)[i] != '\0' by {
        if i >= a.len() {
            assert((a + b)[i] == b[i - a.len()]);
        }
    }
}

proof fn lemma_digit_nul_free(d: int)
    requires
        0 <= d < 16,
    ensures
        nul_free(digit_text(d)),
{
    reveal_strlit("0123456789abcdef");
}

proof fn lemma_escape_nul_free(s: Seq<char>)
    ensures
        nul_free(escape(s)),
    decreases s.len(),
{
    if s.len() > 0 {
        lemma_escape_nul_free(s.drop_last());
        let c = s.last();
        if c == '"' {
            reveal_strlit("\\\"");
        } else if c == '\\' {
            reveal_strlit("\\\\");
        } else if (c as u32) < 0x20 {
            reveal_strlit("\\u00");
            lemma_digit_nul_free((c as u32 / 16) as int);
            lemma_digit_nul_free((c as u32 % 16) as int);
            lemma_nul_free_concat("\\u00"@, digit_text((c as u32 / 16) as int));
            lemma_nul_free_concat(
                "\\u00"@ + digit_text((c as u32 / 16) as int),
                digit_text((c as u32 % 16) as int),
            );
        } else {
            assert(c != '\0');
            assert(nul_free(seq![c]));
        }
        lemma_nul_free_concat(escape(s.drop_last()), escape_char(c));
    }
}

/// A JSON string literal holds no NUL character.
pub proof fn lemma_json_string_nul_free(s: Seq<char>)
    ensures
        nul_free(json_string(s)),
{
    reveal_strlit("\"");
    lemma_escape_nul_free(s);
    lemma_nul_free_concat("\""@, escape(s));
    lemma_nul_free_concat("\""@ + escape(s), "\""@);
}

/// A decimal rendering holds no NUL character.
pub proof fn lemma_decimal_nul_free(n: nat)
    ensures
        nul_free(decimal(n)),
    decreases n,
{
    lemma_digit_nul_free((n % 10) as int);
    if n >= 10 {
        lemma_decimal_nul_free(n / 10);
        lemma_nul_free_concat(decimal(n / 10), digit_text((n % 10) as int));
    } else {
        assert(n % 10 == n);
    }
}

/// A number's JSON value holds no NUL character.
pub proof fn lemma_number_json_nul_free(t: Seq<char>)
    ensures
        nul_free(number_json(t)),
{
    if json_number(t) {
        let u = if t.len() > 0 && t[0] == '-' {
            t.drop_first()
        } else {
            t
        };
        assert(unsigned_token(u));
        assert(nul_free(u)) by {
            if !integer_token(u) {
                let p = choose|p: int|
                    0 < p < u.len() - 1 && #[trigger] u[p] == '.' && integer_token(
                        u.subrange(0, p),
                    ) && all_digits(u.subrange(p + 1, u.len() as int));
                assert forall|i: int| 0 <= i < u.len() implies u[i] != '\0' by {
                    if i < p {
                        assert(u.subrange(0, p)[i] == u[i]);
                    } else if i > p {
                        assert(u.subrange(p + 1, u.len() as int)[i - p - 1] == u[i]);
                    }
                }
            }
        }
        if t.len() > 0 && t[0] == '-' {
            assert forall|i: int| 0 <= i < t.len() implies t[i] != '\0' by {
                if i > 0 {
                    assert(t[i] == u[i - 1]);
                }
            }
        }
    } else {
        lemma_json_string_nul_free(t);
    }
}

pub proof fn lemma_join_nul_free(es: Seq<Seq<char>>)
    requires
        forall|i: int| 0 <= i < es.len() ==> nul_free(#[trigger] es[i]),
    ensures
        nul_free(join(es)),
    decreases es.len(),
{
    if es.len() > 1 {
        reveal_strlit(",");
        lemma_join_nul_free(es.drop_last());
        assert(nul_free(es.last()));
        lemma_nul_free_concat(join(es.drop_last()), ","@);
        lemma_nul_free_concat(join(es.drop_last()) + ","@, es.last());
    } else if es.len() == 1 {
        assert(nul_free(es[0]));
    }
}

} // verus!
