//! The reply that the plugin sends back for a call.

use vstd::prelude::*;
use base64::Engine;
use crate::vnpt::schema::json::{
    decimal_string, decimal_text, escaped_text, integer_prefix, is_plain_json_text, json_string,
    json_string_literal, lemma_decimal_text_reads_back, lemma_string_literal_reads_back,
    string_literal_rest,
};

verus! {

/// The character of the 6-bit value `v` in the standard base64 alphabet
/// `A-Z a-z 0-9 + /`.
pub open spec fn base64_char(v: int) -> char {
    if v < 26 {
        (65 + v) as char
    } else if v < 52 {
        (97 + v - 26) as char
    } else if v < 62 {
        (48 + v - 52) as char
    } else if v == 62 {
        '+'
    } else {
        '/'
    }
}

/// The four characters of the 24-bit group `n`, six bits each, most
/// significant first.
pub open spec fn base64_group(n: int) -> Seq<char> {
    seq![
        base64_char(n / 262144),
        base64_char((n / 4096) % 64),
        base64_char((n / 64) % 64),
        base64_char(n % 64),
    ]
}

/// The padded base64 text of `data` in the standard alphabet (RFC 4648): each
/// group of three bytes as four characters; a last group of two bytes as
/// three characters and `=`, of one byte as two characters and `==`.
pub open spec fn base64_standard(data: Seq<u8>) -> Seq<char>
    decreases data.len(),
{
    if data.len() == 0 {
        Seq::empty()
    } else if data.len() == 1 {
        base64_group(data[0] * 65536).take(2) + seq!['=', '=']
    } else if data.len() == 2 {
        base64_group(data[0] * 65536 + data[1] * 256).take(3) + seq!['=']
    } else {
        base64_group(data[0] * 65536 + data[1] * 256 + data[2]) + base64_standard(data.skip(3))
    }
}

/// A character of the standard base64 alphabet, or the padding `=`.
pub open spec fn is_base64_char(c: char) -> bool {
    ||| ('A' <= c && c <= 'Z')
    ||| ('a' <= c && c <= 'z')
    ||| ('0' <= c && c <= '9')
    ||| c == '+'
    ||| c == '/'
    ||| c == '='
}

/// The length of the padded base64 text of `n` bytes: four characters for
/// each started group of three bytes.
pub open spec fn base64_len(n: nat) -> nat {
    (n + 2) / 3 * 4
}

/// Every character of a group is in the alphabet.
proof fn lemma_base64_group_chars(n: int)
    requires
        0 <= n < 16777216,
    ensures
        forall|i: int| 0 <= i < 4 ==> #[trigger] is_base64_char(base64_group(n)[i]),
{
    let g = base64_group(n);
    assert forall|i: int| 0 <= i < 4 implies #[trigger] is_base64_char(g[i]) by {
        let v = if i == 0 {
            n / 262144
        } else if i == 1 {
            (n / 4096) % 64
        } else if i == 2 {
            (n / 64) % 64
        } else {
            n % 64
        };
        assert(g[i] == base64_char(v));
        assert(0 <= v < 64);
        if v < 26 {
            assert(((65 + v) as char) as u32 == 65 + v);
        } else if v < 52 {
            assert(((97 + v - 26) as char) as u32 == 97 + v - 26);
        } else if v < 62 {
            assert(((48 + v - 52) as char) as u32 == 48 + v - 52);
        }
    }
}

/// The base64 text of `data` has `base64_len` characters, each of the
/// alphabet or the pad.
pub proof fn lemma_base64_standard_shape(data: Seq<u8>)
    ensures
        base64_standard(data).len() == base64_len(data.len()),
        forall|i: int| 0 <= i < base64_standard(data).len() ==> #[trigger] is_base64_char(
            base64_standard(data)[i],
        ),
    decreases data.len(),
{
    let t = base64_standard(data);
    if data.len() == 0 {
    } else if data.len() == 1 {
        let n = data[0] * 65536;
        lemma_base64_group_chars(n);
        assert forall|i: int| 0 <= i < t.len() implies #[trigger] is_base64_char(t[i]) by {
            if i < 2 {
                assert(t[i] == base64_group(n)[i]);
            }
        }
    } else if data.len() == 2 {
        let n = data[0] * 65536 + data[1] * 256;
        lemma_base64_group_chars(n);
        assert forall|i: int| 0 <= i < t.len() implies #[trigger] is_base64_char(t[i]) by {
            if i < 3 {
                assert(t[i] == base64_group(n)[i]);
            }
        }
    } else {
        let n = data[0] * 65536 + data[1] * 256 + data[2];
        let rest = base64_standard(data.skip(3));
        lemma_base64_group_chars(n);
        lemma_base64_standard_shape(data.skip(3));
        assert forall|i: int| 0 <= i < t.len() implies #[trigger] is_base64_char(t[i]) by {
            if i < 4 {
                assert(t[i] == base64_group(n)[i]);
            } else {
                assert(t[i] == rest[i - 4]);
            }
        }
    }
}

/// Encodes `data` with `base64::engine::general_purpose::STANDARD.encode`.
///
/// Claimed of that call, as the crate's source shows it (the `STANDARD`
/// alphabet, `PAD` with `=`, `encoded_len` and `add_padding`): its text is
/// `base64_standard` of `data`. The call panics where the text's length
/// overflows a `usize`; `requires` leaves those inputs out.
#[verifier::external_body]
fn base64_encode_standard(data: &[u8]) -> (res: String)
    requires
        base64_len(data@.len()) <= usize::MAX,
    ensures
        res@ == base64_standard(data@),
{
    base64::engine::general_purpose::STANDARD.encode(data)
}

/// What a reply holds: a status code, the base64 text of its data, and a
/// description of the outcome.
pub struct ResponseView {
    pub code: i32,
    pub data: Seq<char>,
    pub description: Seq<char>,
}

/// A reply of the plugin, as the page receives it in JSON: the status `code`,
/// the payload `data` in base64, and the `description` (sent under the key
/// `error`).
pub struct ServerJsonResponse {
    code: i32,
    data: String,
    description: String,
}

impl View for ServerJsonResponse {
    type V = ResponseView;

    closed spec fn view(&self) -> ResponseView {
        ResponseView { code: self.code, data: self.data@, description: self.description@ }
    }
}

/// `s` between double quotes: the JSON string literal of a text that needs no
/// escapes.
pub open spec fn quoted(s: Seq<char>) -> Seq<char> {
    seq!['"'] + s + seq!['"']
}

/// The compact JSON text of a reply whose data and description need no
/// escapes.
pub open spec fn plain_response_json(r: ResponseView) -> Seq<char> {
    "{\"code\":"@ + decimal_text(r.code as int) + ",\"data\":"@ + quoted(r.data) + ",\"error\":"@
        + quoted(r.description) + "}"@
}

/// The compact JSON text of a reply: an object with the keys `code`, `data`
/// and `error`, in that order, with no spaces.
pub open spec fn response_json(r: ResponseView) -> Seq<char> {
    "{\"code\":"@ + decimal_text(r.code as int) + ",\"data\":"@ + json_string_literal(r.data)
        + ",\"error\":"@ + json_string_literal(r.description) + "}"@
}

/// `t` after its prefix `p`, where `t` begins with `p`.
pub open spec fn after_prefix(t: Seq<char>, p: Seq<char>) -> Option<Seq<char>> {
    if p.len() <= t.len() && t.take(p.len() as int) == p {
        Some(t.skip(p.len() as int))
    } else {
        None
    }
}

/// Reads the end of a reply's JSON, after the opening quote of its `error`
/// value: the description, where the text ends with its literal and `}`.
pub open spec fn error_field_rest(t: Seq<char>) -> Option<Seq<char>> {
    match string_literal_rest(t) {
        Some((description, n)) => if t.skip(n as int) == "}"@ {
            Some(description)
        } else {
            None
        },
        None => None,
    }
}

/// Reads the rest of a reply's JSON after the opening quote of its `data`
/// value: the data and the description.
pub open spec fn data_field_rest(t: Seq<char>) -> Option<(Seq<char>, Seq<char>)> {
    match string_literal_rest(t) {
        Some((data, n)) => match after_prefix(t.skip(n as int), ",\"error\":"@ + seq!['"']) {
            Some(t2) => match error_field_rest(t2) {
                Some(description) => Some((data, description)),
                None => None,
            },
            None => None,
        },
        None => None,
    }
}

/// Reads the rest of a reply's JSON after its `"code":` key.
pub open spec fn code_field_rest(t: Seq<char>) -> Option<ResponseView> {
    match integer_prefix(t) {
        Some((code, n)) => if i32::MIN <= code <= i32::MAX {
            match after_prefix(t.skip(n as int), ",\"data\":"@ + seq!['"']) {
                Some(t2) => match data_field_rest(t2) {
                    Some((data, description)) => Some(
                        ResponseView { code: code as i32, data, description },
                    ),
                    None => None,
                },
                None => None,
            }
        } else {
            None
        },
        None => None,
    }
}

/// Reads a reply back from its compact JSON text, in the form that
/// `response_json` writes: the keys `code`, `data` and `error` in that order,
/// an integer that fits an `i32`, and two string literals. `None` where `t` is
/// not such a text.
pub open spec fn response_from_json(t: Seq<char>) -> Option<ResponseView> {
    match after_prefix(t, "{\"code\":"@) {
        Some(t1) => code_field_rest(t1),
        None => None,
    }
}

proof fn lemma_error_field_reads_back(description: Seq<char>)
    ensures
        error_field_rest(escaped_text(description) + seq!['"'] + "}"@) == Some(description),
{
    let ee = escaped_text(description);
    let t = ee + seq!['"'] + "}"@;
    lemma_string_literal_reads_back(description, "}"@);
    assert(t.skip(ee.len() as int + 1) =~= "}"@);
}

proof fn lemma_data_field_reads_back(data: Seq<char>, description: Seq<char>)
    ensures
        data_field_rest(
            escaped_text(data) + seq!['"'] + (",\"error\":"@ + seq!['"'] + escaped_text(description)
                + seq!['"'] + "}"@),
        ) == Some((data, description)),
{
    let k2q = ",\"error\":"@ + seq!['"'];
    let t3 = escaped_text(description) + seq!['"'] + "}"@;
    let r2 = ",\"error\":"@ + seq!['"'] + escaped_text(description) + seq!['"'] + "}"@;
    let ed = escaped_text(data);
    let t = ed + seq!['"'] + r2;
    lemma_string_literal_reads_back(data, r2);
    assert(t.skip(ed.len() as int + 1) =~= r2);
    assert(r2.take(k2q.len() as int) =~= k2q);
    assert(r2.skip(k2q.len() as int) =~= t3);
    lemma_error_field_reads_back(description);
}

proof fn lemma_code_field_reads_back(r: ResponseView)
    ensures
        code_field_rest(
            decimal_text(r.code as int) + (",\"data\":"@ + seq!['"'] + escaped_text(r.data) + seq!['"']
                + (",\"error\":"@ + seq!['"'] + escaped_text(r.description) + seq!['"'] + "}"@)),
        ) == Some(r),
{
    reveal_strlit(",\"data\":");
    let k1q = ",\"data\":"@ + seq!['"'];
    let r2 = ",\"error\":"@ + seq!['"'] + escaped_text(r.description) + seq!['"'] + "}"@;
    let t2 = escaped_text(r.data) + seq!['"'] + r2;
    let r1 = ",\"data\":"@ + seq!['"'] + escaped_text(r.data) + seq!['"'] + r2;
    let dec = decimal_text(r.code as int);
    let t = dec + r1;
    assert(r1[0] == ',');
    lemma_decimal_text_reads_back(r.code as int, r1);
    assert(t.skip(dec.len() as int) =~= r1);
    assert(r1.take(k1q.len() as int) =~= k1q);
    assert(r1.skip(k1q.len() as int) =~= t2);
    lemma_data_field_reads_back(r.data, r.description);
}

/// The JSON text of a reply reads back as that same reply: its code, its
/// data and its description, whatever characters they hold.
pub proof fn lemma_response_json_reads_back(r: ResponseView)
    ensures
        response_from_json(response_json(r)) == Some(r),
{
    let k0 = "{\"code\":"@;
    let rest = decimal_text(r.code as int) + (",\"data\":"@ + seq!['"'] + escaped_text(r.data)
        + seq!['"'] + (",\"error\":"@ + seq!['"'] + escaped_text(r.description) + seq!['"']
        + "}"@));
    let t = response_json(r);
    assert(t =~= k0 + rest);
    assert(t.take(k0.len() as int) =~= k0);
    assert(t.skip(k0.len() as int) =~= rest);
    lemma_code_field_reads_back(r);
}

impl ServerJsonResponse {
    /// A reply with the given code and description whose data is the base64
    /// text of `data`.
    pub fn new(code: i32, data: &[u8], description: String) -> (res: Self)
        requires
            base64_len(data@.len()) <= usize::MAX,
        ensures
            res@ == (ResponseView {
                code,
                data: base64_standard(data@),
                description: description@,
            }),
            res@.data.len() == base64_len(data@.len()),
            is_plain_json_text(res@.data),
    {
        let ghost old_data_view = data@;
        let data = base64_encode_standard(data);
        proof {
            lemma_base64_standard_shape(old_data_view);
            assert forall|i: int| 0 <= i < data@.len() implies
                #[trigger] crate::vnpt::schema::json::is_plain_json_char(data@[i]) by {
                assert(is_base64_char(data@[i]));
            }
        }
        ServerJsonResponse { code, data, description }
    }

    /// A reply whose data is already base64 text.
    pub fn from_encoded(code: i32, data: String, description: String) -> (res: Self)
        ensures
            res@ == (ResponseView { code, data: data@, description: description@ }),
    {
        ServerJsonResponse { code, data, description }
    }

    /// The status code.
    pub fn code(&self) -> (res: i32)
        ensures
            res == self@.code,
    {
        self.code
    }

    /// The base64 text of the data.
    pub fn data(&self) -> (res: &str)
        ensures
            res@ == self@.data,
    {
        self.data.as_str()
    }

    /// The description.
    pub fn description(&self) -> (res: &str)
        ensures
            res@ == self@.description,
    {
        self.description.as_str()
    }

    /// The reply as compact JSON text, as serde_json writes its value.
    pub fn to_value(&self) -> (res: String)
        ensures
            res@ == response_json(self@),
            is_plain_json_text(self@.data) && is_plain_json_text(self@.description) ==> res@
                == plain_response_json(self@),
            response_from_json(res@) == Some(self@),
    {
        proof {
            lemma_response_json_reads_back(self@);
        }
        let mut out = String::from_str("{\"code\":");
        let code = decimal_string(self.code);
        out.append(code.as_str());
        out.append(",\"data\":");
        let data = json_string(self.data.as_str());
        out.append(data.as_str());
        out.append(",\"error\":");
        let description = json_string(self.description.as_str());
        out.append(description.as_str());
        out.append("}");
        out
    }
}

} // verus!
