//! The pieces of JSON text that a reply is made of: decimal integers and
//! string literals.

use vstd::prelude::*;

verus! {

/// The character of a decimal digit `d` (`0 <= d < 10`).
pub open spec fn digit_char(d: int) -> char {
    seq!['0', '1', '2', '3', '4', '5', '6', '7', '8', '9'][d]
}

/// The decimal digits of `n`, most significant first, without leading zeros.
pub open spec fn decimal_digits(n: nat) -> Seq<char>
    decreases n,
{
    if n < 10 {
        seq![digit_char(n as int)]
    } else {
        decimal_digits(n / 10) + seq![digit_char((n % 10) as int)]
    }
}

/// The JSON number text of the integer `v`: its decimal digits, after a `-`
/// where it is negative.
pub open spec fn decimal_text(v: int) -> Seq<char> {
    if v < 0 {
        seq!['-'] + decimal_digits((-v) as nat)
    } else {
        decimal_digits(v as nat)
    }
}

/// The character of the lower-case hexadecimal digit `d` (`0 <= d < 16`).
pub open spec fn hex_digit(d: int) -> char {
    seq!['0', '1', '2', '3', '4', '5', '6', '7', '8', '9', 'a', 'b', 'c', 'd', 'e', 'f'][d]
}

/// How a JSON string literal writes the character `c`: a quote, a backslash
/// and the control characters with a short escape (`\b \t \n \f \r`) after a
/// backslash, the other control characters below U+0020 as `\u00` and two
/// lower-case hex digits, and every other character as it is.
pub open spec fn escaped_char(c: char) -> Seq<char> {
    if c == '"' {
        seq!['\\', '"']
    } else if c == '\\' {
        seq!['\\', '\\']
    } else if c == '\u{8}' {
        seq!['\\', 'b']
    } else if c == '\t' {
        seq!['\\', 't']
    } else if c == '\n' {
        seq!['\\', 'n']
    } else if c == '\u{c}' {
        seq!['\\', 'f']
    } else if c == '\r' {
        seq!['\\', 'r']
    } else if (c as u32) < 0x20 {
        seq!['\\', 'u', '0', '0', hex_digit((c as u32) as int / 16), hex_digit((c as u32) as int % 16)]
    } else {
        seq![c]
    }
}

/// The text `s` with each character escaped as a JSON string literal writes
/// it.
pub open spec fn escaped_text(s: Seq<char>) -> Seq<char>
    decreases s.len(),
{
    if s.len() == 0 {
        Seq::empty()
    } else {
        escaped_char(s[0]) + escaped_text(s.drop_first())
    }
}

/// The JSON string literal that `serde_json` writes for the text `s`: its
/// escaped text between double quotes.
pub open spec fn json_string_literal(s: Seq<char>) -> Seq<char> {
    seq!['"'] + escaped_text(s) + seq!['"']
}

/// A character that a JSON string literal holds as it is, unescaped.
pub open spec fn is_plain_json_char(c: char) -> bool {
    c != '"' && c != '\\' && (c as u32) >= 0x20
}

/// Text whose every character a JSON string literal holds unescaped.
pub open spec fn is_plain_json_text(s: Seq<char>) -> bool {
    forall|i: int| 0 <= i < s.len() ==> #[trigger] is_plain_json_char(s[i])
}

/// Text that needs no escapes is its own escaped text.
pub proof fn lemma_plain_text_is_unescaped(s: Seq<char>)
    requires
        is_plain_json_text(s),
    ensures
        escaped_text(s) == s,
    decreases s.len(),
{
    if s.len() > 0 {
        assert(is_plain_json_char(s[0]));
        assert(is_plain_json_text(s.drop_first())) by {
            assert forall|i: int| 0 <= i < s.drop_first().len() implies #[trigger] is_plain_json_char(
                s.drop_first()[i],
            ) by {
                assert(s.drop_first()[i] == s[i + 1]);
            }
        }
        lemma_plain_text_is_unescaped(s.drop_first());
        assert(s =~= seq![s[0]] + s.drop_first());
    }
}

/// The value of a lower-case hexadecimal digit.
pub open spec fn hex_value(c: char) -> Option<int> {
    if '0' <= c && c <= '9' {
        Some((c as u32) as int - 48)
    } else if 'a' <= c && c <= 'f' {
        Some((c as u32) as int - 87)
    } else {
        None
    }
}

/// The character that a short escape `\e` stands for.
pub open spec fn short_escape(e: char) -> Option<char> {
    if e == '"' {
        Some('"')
    } else if e == '\\' {
        Some('\\')
    } else if e == '/' {
        Some('/')
    } else if e == 'b' {
        Some('\u{8}')
    } else if e == 't' {
        Some('\t')
    } else if e == 'n' {
        Some('\n')
    } else if e == 'f' {
        Some('\u{c}')
    } else if e == 'r' {
        Some('\r')
    } else {
        None
    }
}

/// Reads the rest of a JSON string literal, after its opening quote, in the
/// forms that `json_string_literal` writes (and the short escape `\/`): the
/// text it stands for, and how many characters it takes up to and with its
/// closing quote. `None` where `t` holds no such rest of a literal.
pub open spec fn string_literal_rest(t: Seq<char>) -> Option<(Seq<char>, nat)>
    decreases t.len(),
{
    if t.len() == 0 {
        None
    } else if t[0] == '"' {
        Some((Seq::empty(), 1))
    } else if t[0] == '\\' {
        if t.len() >= 2 && short_escape(t[1]) is Some {
            match string_literal_rest(t.skip(2)) {
                Some((s, n)) => Some((seq![short_escape(t[1])->0] + s, n + 2)),
                None => None,
            }
        } else if t.len() >= 6 && t[1] == 'u' && t[2] == '0' && t[3] == '0' && hex_value(t[4]) is Some
            && hex_value(t[5]) is Some {
            match string_literal_rest(t.skip(6)) {
                Some((s, n)) => Some(
                    (seq![(hex_value(t[4])->0 * 16 + hex_value(t[5])->0) as char] + s, n + 6),
                ),
                None => None,
            }
        } else {
            None
        }
    } else if (t[0] as u32) < 0x20 {
        None
    } else {
        match string_literal_rest(t.drop_first()) {
            Some((s, n)) => Some((seq![t[0]] + s, n + 1)),
            None => None,
        }
    }
}

/// A hexadecimal digit reads back as its value.
proof fn lemma_hex_digit_value(d: int)
    requires
        0 <= d < 16,
    ensures
        hex_value(hex_digit(d)) == Some(d),
{
    if d < 10 {
        assert(hex_digit(d) == seq!['0', '1', '2', '3', '4', '5', '6', '7', '8', '9'][d]);
    }
}

/// The escaped form of one character reads back as that character.
proof fn lemma_escaped_char_reads_back(c: char, rest: Seq<char>)
    ensures
        string_literal_rest(escaped_char(c) + rest) == (match string_literal_rest(rest) {
            Some((s, n)) => Some((seq![c] + s, n + escaped_char(c).len())),
            None => None,
        }),
{
    let e = escaped_char(c);
    let t = e + rest;
    if e.len() == 1 {
        assert(t.drop_first() =~= rest);
    } else if e.len() == 2 {
        assert(t.skip(2) =~= rest);
    } else {
        let v = (c as u32) as int;
        lemma_hex_digit_value(v / 16);
        lemma_hex_digit_value(v % 16);
        assert(t.skip(6) =~= rest);
        assert(t[4] == hex_digit(v / 16));
        assert(t[5] == hex_digit(v % 16));
        assert((v / 16) * 16 + v % 16 == v);
        assert(((v / 16) * 16 + v % 16) as char == c);
    }
}

/// A JSON string literal as `json_string_literal` writes it reads back, from
/// after its opening quote, as the text it was written for, whatever follows
/// it.
pub proof fn lemma_string_literal_reads_back(s: Seq<char>, rest: Seq<char>)
    ensures
        string_literal_rest(escaped_text(s) + seq!['"'] + rest) == Some(
            (s, escaped_text(s).len() + 1),
        ),
    decreases s.len(),
{
    if s.len() == 0 {
        assert(escaped_text(s) + seq!['"'] + rest =~= seq!['"'] + rest);
        assert(s =~= Seq::<char>::empty());
    } else {
        let tail = escaped_text(s.drop_first()) + seq!['"'] + rest;
        lemma_string_literal_reads_back(s.drop_first(), rest);
        lemma_escaped_char_reads_back(s[0], tail);
        assert(escaped_text(s) + seq!['"'] + rest =~= escaped_char(s[0]) + tail);
        assert(seq![s[0]] + s.drop_first() =~= s);
    }
}

/// A decimal digit character.
pub open spec fn is_digit(c: char) -> bool {
    '0' <= c && c <= '9'
}

/// The value of the decimal digits `t`, most significant first.
pub open spec fn digits_value(t: Seq<char>) -> int
    decreases t.len(),
{
    if t.len() == 0 {
        0
    } else {
        digits_value(t.drop_last()) * 10 + ((t.last() as u32) as int - 48)
    }
}

/// How many decimal digits `t` begins with.
pub open spec fn digit_run(t: Seq<char>) -> nat
    decreases t.len(),
{
    if t.len() > 0 && is_digit(t[0]) {
        1 + digit_run(t.drop_first())
    } else {
        0
    }
}

/// Reads a JSON integer at the start of `t`: an optional `-` and the longest
/// run of digits after it; its value, and how many characters it takes.
pub open spec fn integer_prefix(t: Seq<char>) -> Option<(int, nat)> {
    if t.len() > 0 && t[0] == '-' {
        let k = digit_run(t.drop_first());
        if k > 0 {
            Some((-digits_value(t.drop_first().take(k as int)), k + 1))
        } else {
            None
        }
    } else {
        let k = digit_run(t);
        if k > 0 {
            Some((digits_value(t.take(k as int)), k))
        } else {
            None
        }
    }
}

/// A digit's character is a digit, whose value is the digit.
proof fn lemma_digit_char_value(d: int)
    requires
        0 <= d < 10,
    ensures
        is_digit(digit_char(d)),
        (digit_char(d) as u32) as int - 48 == d,
{
    let s = seq!['0', '1', '2', '3', '4', '5', '6', '7', '8', '9'];
    assert(digit_char(d) == s[d]);
    if d == 0 { assert(s[d] == '0'); }
    else if d == 1 { assert(s[d] == '1'); }
    else if d == 2 { assert(s[d] == '2'); }
    else if d == 3 { assert(s[d] == '3'); }
    else if d == 4 { assert(s[d] == '4'); }
    else if d == 5 { assert(s[d] == '5'); }
    else if d == 6 { assert(s[d] == '6'); }
    else if d == 7 { assert(s[d] == '7'); }
    else if d == 8 { assert(s[d] == '8'); }
    else { assert(s[d] == '9'); }
}

/// The digits of `n` are digits, and read back as `n`.
proof fn lemma_decimal_digits_read_back(n: nat)
    ensures
        decimal_digits(n).len() > 0,
        forall|i: int| 0 <= i < decimal_digits(n).len() ==> #[trigger] is_digit(decimal_digits(n)[i]),
        digits_value(decimal_digits(n)) == n,
    decreases n,
{
    let d = decimal_digits(n);
    let last = digit_char((n % 10) as int);
    lemma_digit_char_value((n % 10) as int);
    if n < 10 {
        assert(d == seq![last]);
        assert(d.drop_last() =~= Seq::<char>::empty());
        assert(d.last() == last);
        assert(digits_value(d) == digits_value(d.drop_last()) * 10 + ((d.last() as u32) as int - 48));
    } else {
        let prev = decimal_digits(n / 10);
        lemma_decimal_digits_read_back(n / 10);
        assert(d == prev + seq![last]);
        assert(d.drop_last() =~= prev);
        assert(d.last() == last);
        assert(digits_value(d) == digits_value(d.drop_last()) * 10 + ((d.last() as u32) as int - 48));
        assert((n / 10) * 10 + n % 10 == n);
        assert forall|i: int| 0 <= i < d.len() implies #[trigger] is_digit(d[i]) by {
            if i < prev.len() {
                assert(d[i] == prev[i]);
            }
        }
    }
}

/// The digits of `n` begin with `0` only where `n` is 0.
proof fn lemma_decimal_digits_no_leading_zero(n: nat)
    ensures
        decimal_digits(n)[0] == '0' ==> n == 0,
    decreases n,
{
    if n < 10 {
        lemma_digit_char_value(n as int);
        assert(decimal_digits(n)[0] == digit_char(n as int));
    } else {
        lemma_decimal_digits_no_leading_zero(n / 10);
        lemma_decimal_digits_read_back(n / 10);
        assert(decimal_digits(n)[0] == decimal_digits(n / 10)[0]);
    }
}

/// The JSON number text of `v` is the canonical decimal form of `v`: a `-`
/// exactly where `v` is negative, then one or more digits `0`-`9` whose value
/// is the magnitude of `v`, with no leading zero unless the number is 0
/// itself. So no other text stands for `v`, and any JSON reader reads `v`.
pub proof fn lemma_decimal_text_canonical(v: int)
    ensures
        ({
            let t = decimal_text(v);
            let d = if v < 0 {
                t.skip(1)
            } else {
                t
            };
            &&& t.len() > 0
            &&& (t[0] == '-' <==> v < 0)
            &&& d.len() > 0
            &&& forall|i: int| 0 <= i < d.len() ==> '0' <= #[trigger] d[i] && d[i] <= '9'
            &&& (d[0] == '0' ==> d.len() == 1 && v == 0)
            &&& digits_value(d) == (if v < 0 {
                -v
            } else {
                v
            })
        }),
{
    let t = decimal_text(v);
    let m: nat = if v < 0 {
        (-v) as nat
    } else {
        v as nat
    };
    let dd = decimal_digits(m);
    lemma_decimal_digits_read_back(m);
    lemma_decimal_digits_no_leading_zero(m);
    if v < 0 {
        assert(t.skip(1) =~= dd);
    } else {
        assert(t == dd);
        assert(is_digit(dd[0]));
    }
    assert forall|i: int| 0 <= i < dd.len() implies '0' <= #[trigger] dd[i] && dd[i] <= '9' by {
        assert(is_digit(dd[i]));
    }
    if dd[0] == '0' {
        if m >= 10 {
            assert(false);
        }
        assert(dd.len() == 1);
    }
}

/// A run of digits followed by a non-digit is read exactly.
proof fn lemma_digit_run(a: Seq<char>, rest: Seq<char>)
    requires
        forall|i: int| 0 <= i < a.len() ==> #[trigger] is_digit(a[i]),
        rest.len() == 0 || !is_digit(rest[0]),
    ensures
        digit_run(a + rest) == a.len(),
    decreases a.len(),
{
    if a.len() > 0 {
        assert((a + rest).drop_first() =~= a.drop_first() + rest);
        assert forall|i: int| 0 <= i < a.drop_first().len() implies #[trigger] is_digit(
            a.drop_first()[i],
        ) by {
            assert(a.drop_first()[i] == a[i + 1]);
        }
        lemma_digit_run(a.drop_first(), rest);
    } else {
        assert(a + rest =~= rest);
    }
}

/// Digits `d` followed by a non-digit read back as their value.
proof fn lemma_digits_then_rest(d: Seq<char>, rest: Seq<char>)
    requires
        d.len() > 0,
        forall|i: int| 0 <= i < d.len() ==> #[trigger] is_digit(d[i]),
        rest.len() == 0 || !is_digit(rest[0]),
    ensures
        digit_run(d + rest) == d.len(),
        (d + rest).take(d.len() as int) == d,
        (d + rest)[0] != '-',
{
    lemma_digit_run(d, rest);
    assert((d + rest).take(d.len() as int) =~= d);
    assert((d + rest)[0] == d[0]);
    assert(is_digit(d[0]));
}

/// The JSON number text of `v` reads back as `v` where no digit follows it.
pub proof fn lemma_decimal_text_reads_back(v: int, rest: Seq<char>)
    requires
        rest.len() == 0 || !is_digit(rest[0]),
    ensures
        integer_prefix(decimal_text(v) + rest) == Some((v, decimal_text(v).len())),
{
    let t = decimal_text(v) + rest;
    if v < 0 {
        let d = decimal_digits((-v) as nat);
        lemma_decimal_digits_read_back((-v) as nat);
        lemma_digits_then_rest(d, rest);
        assert(t == seq!['-'] + d + rest);
        assert(t[0] == '-');
        assert(t.drop_first() =~= d + rest);
    } else {
        let d = decimal_digits(v as nat);
        lemma_decimal_digits_read_back(v as nat);
        lemma_digits_then_rest(d, rest);
        assert(t == d + rest);
    }
}

#[verifier::external_type_specification]
#[verifier::external_body]
pub struct ExJsonError(serde_json::Error);

/// Serializes the text `s` with `serde_json::to_string`.
///
/// Claimed of that call, as serde_json's serializer for `str` shows it
/// (`format_escaped_str`, its escape table and `write_char_escape`): it
/// succeeds, since it writes into a `Vec<u8>`, which never fails; and its
/// text is `json_string_literal` of `s`.
#[verifier::external_body]
fn serde_json_to_string(s: &str) -> (res: Result<String, serde_json::Error>)
    ensures
        res is Ok,
        res matches Ok(t) ==> t@ == json_string_literal(s@),
{
    serde_json::to_string(s)
}

/// The JSON string literal of `s`, as serde_json writes it.
pub fn json_string(s: &str) -> (res: String)
    ensures
        res@ == json_string_literal(s@),
        is_plain_json_text(s@) ==> res@ == seq!['"'] + s@ + seq!['"'],
{
    match serde_json_to_string(s) {
        Ok(t) => {
            proof {
                if is_plain_json_text(s@) {
                    lemma_plain_text_is_unescaped(s@);
                }
            }
            t
        },
        Err(_) => {
            proof {
                assert(false);
            }
            String::new()
        },
    }
}

/// The text of the decimal digit `d`.
fn digit_str(d: u32) -> (s: &'static str)
    requires
        d < 10,
    ensures
        s@ == seq![digit_char(d as int)],
{
    proof {
        reveal_strlit("0");
        reveal_strlit("1");
        reveal_strlit("2");
        reveal_strlit("3");
        reveal_strlit("4");
        reveal_strlit("5");
        reveal_strlit("6");
        reveal_strlit("7");
        reveal_strlit("8");
        reveal_strlit("9");
    }
    if d == 0 {
        "0"
    } else if d == 1 {
        "1"
    } else if d == 2 {
        "2"
    } else if d == 3 {
        "3"
    } else if d == 4 {
        "4"
    } else if d == 5 {
        "5"
    } else if d == 6 {
        "6"
    } else if d == 7 {
        "7"
    } else if d == 8 {
        "8"
    } else {
        "9"
    }
}

/// Appends the decimal digits of `n` to `out`.
fn append_decimal(out: &mut String, n: u32)
    ensures
        final(out)@ == old(out)@ + decimal_digits(n as nat),
    decreases n,
{
    if n >= 10 {
        append_decimal(out, n / 10);
    }
    out.append(digit_str(n % 10));
    proof {
        assert(old(out)@ + decimal_digits(n as nat) =~= (if n >= 10 {
            old(out)@ + decimal_digits((n / 10) as nat)
        } else {
            old(out)@
        }) + seq![digit_char((n % 10) as int)]);
    }
}

/// The JSON number text of `v`, as serde_json writes an `i32`.
pub fn decimal_string(v: i32) -> (res: String)
    ensures
        res@ == decimal_text(v as int),
        res@.len() > 0,
        res@[0] == '-' <==> v < 0,
        ({
            let d = if v < 0 {
                res@.skip(1)
            } else {
                res@
            };
            &&& d.len() > 0
            &&& forall|i: int| 0 <= i < d.len() ==> '0' <= #[trigger] d[i] && d[i] <= '9'
            &&& (d[0] == '0' ==> d.len() == 1 && v == 0)
            &&& digits_value(d) == (if v < 0 {
                -(v as int)
            } else {
                v as int
            })
        }),
{

    let mut out = String::new();
    if v < 0 {
        proof {
            reveal_strlit("-");
        }
        out.append("-");
        let magnitude: u32 = if v == i32::MIN {
            2147483648u32
        } else {
            (-v) as u32
        };
        append_decimal(&mut out, magnitude);
    } else {
        append_decimal(&mut out, v as u32);
    }
    proof {
        lemma_decimal_text_canonical(v as int);
        let t = decimal_text(v as int);
        assert(out@ == t);
        let d = if v < 0 {
            t.skip(1)
        } else {
            t
        };
        let m: nat = if v < 0 {
            (-(v as int)) as nat
        } else {
            v as nat
        };
        lemma_decimal_digits_read_back(m);
        assert(d =~= decimal_digits(m));
        assert forall|i: int| 0 <= i < d.len() implies '0' <= #[trigger] d[i] && d[i] <= '9' by {
            assert(is_digit(decimal_digits(m)[i]));
        }
    }
    out
}

} // verus!
