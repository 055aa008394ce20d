//! The worker wire format: one structured record per line.
//!
//! A command is `{ "action": <string>, "payload": <object or null> }`,
//! serialized to a single line of JSON text. Payloads are flat objects whose
//! field values are null, booleans or strings — the shapes the worker
//! protocol actually carries. The encoder escapes every character that could
//! break the line framing, and `lemma_record_one_line` proves that no encoded
//! record ever contains a raw newline, so each record is exactly one line.
use vstd::prelude::*;
use vstd::string::StrSliceExecFns;
use vstd::string::StringExecFns;

verus! {

/// A scalar value of a payload field.
pub enum FieldValue {
    Null,
    Bool(bool),
    Str(String),
}

/// One `key: value` pair of a payload object.
pub struct PayloadField {
    pub key: String,
    pub value: FieldValue,
}

/// A structured command payload: a flat object of scalar fields,
/// serialized in field order.
pub struct Payload {
    pub fields: Vec<PayloadField>,
}

/// The character for one hexadecimal digit.
pub open spec fn spec_hex_digit(d: int) -> char {
    if d == 0 { '0' } else if d == 1 { '1' } else if d == 2 { '2' } else if d == 3 { '3' }
    else if d == 4 { '4' } else if d == 5 { '5' } else if d == 6 { '6' } else if d == 7 { '7' }
    else if d == 8 { '8' } else if d == 9 { '9' } else if d == 10 { 'a' } else if d == 11 { 'b' }
    else if d == 12 { 'c' } else if d == 13 { 'd' } else if d == 14 { 'e' } else { 'f' }
}

/// How one character is written inside a quoted string: quotes, backslashes
/// and control characters are escaped, everything else stands as itself.
pub open spec fn spec_escape_char(c: char) -> Seq<char> {
    if c == '"' { seq!['\\', '"'] }
    else if c == '\\' { seq!['\\', '\\'] }
    else if c == '\n' { seq!['\\', 'n'] }
    else if c == '\r' { seq!['\\', 'r'] }
    else if c == '\t' { seq!['\\', 't'] }
    else if (c as u32) < 32 {
        seq!['\\', 'u', '0', '0', spec_hex_digit(c as u32 as int / 16), spec_hex_digit(c as u32 as int % 16)]
    }
    else { seq![c] }
}

/// The escaped form of the first `n` characters of `s`.
pub open spec fn spec_escape_prefix(s: Seq<char>, n: int) -> Seq<char>
    decreases n,
{
    if n <= 0 {
        Seq::empty()
    } else {
        spec_escape_prefix(s, n - 1) + spec_escape_char(s[n - 1])
    }
}

/// The escaped form of a whole string.
pub open spec fn spec_escape(s: Seq<char>) -> Seq<char> {
    spec_escape_prefix(s, s.len() as int)
}

/// A quoted, escaped string.
pub open spec fn spec_quote(s: Seq<char>) -> Seq<char> {
    seq!['"'] + spec_escape(s) + seq!['"']
}

/// The encoding of one scalar value.
pub open spec fn spec_value(v: FieldValue) -> Seq<char> {
    match v {
        FieldValue::Null => "null"@,
        FieldValue::Bool(b) => if b { "true"@ } else { "false"@ },
        FieldValue::Str(s) => spec_quote(s@),
    }
}

/// The encoding of one field, `"key":value`.
pub open spec fn spec_field(f: PayloadField) -> Seq<char> {
    spec_quote(f.key@) + seq![':'] + spec_value(f.value)
}

/// The comma-separated encoding of the first `n` fields.
pub open spec fn spec_fields_prefix(fs: Seq<PayloadField>, n: int) -> Seq<char>
    decreases n,
{
    if n <= 0 {
        Seq::empty()
    } else if n == 1 {
        spec_field(fs[0])
    } else {
        spec_fields_prefix(fs, n - 1) + seq![','] + spec_field(fs[n - 1])
    }
}

/// The encoding of a payload object.
pub open spec fn spec_payload(p: Payload) -> Seq<char> {
    seq!['{'] + spec_fields_prefix(p.fields@, p.fields@.len() as int) + seq!['}']
}

/// The encoding of an optional payload: absent payloads are written `null`.
pub open spec fn spec_opt_payload(p: Option<Payload>) -> Seq<char> {
    match p {
        Option::None => "null"@,
        Option::Some(pl) => spec_payload(pl),
    }
}

/// One whole command record, without its terminating newline.
pub open spec fn spec_record(action: Seq<char>, payload: Option<Payload>) -> Seq<char> {
    "{\"action\":"@ + spec_quote(action) + ",\"payload\":"@ + spec_opt_payload(payload) + seq!['}']
}

/// One whole line as written to the worker: the record plus its newline.
pub open spec fn spec_line(action: Seq<char>, payload: Option<Payload>) -> Seq<char> {
    spec_record(action, payload) + seq!['\n']
}

/// `s` contains no raw newline.
pub open spec fn one_line(s: Seq<char>) -> bool {
    forall|i: int| 0 <= i < s.len() ==> s[i] != '\n'
}

/// Relies on `String::push`: appends exactly one character.
#[verifier::external_body]
pub(crate) fn push_char(s: &mut String, c: char)
    ensures
        final(s)@ == old(s)@ + seq![c],
{
    s.push(c);
}

/// The character for one hexadecimal digit.
fn hex_digit(d: u32) -> (c: char)
    requires
        d < 16,
    ensures
        c == spec_hex_digit(d as int),
{
    if d == 0 { '0' } else if d == 1 { '1' } else if d == 2 { '2' } else if d == 3 { '3' }
    else if d == 4 { '4' } else if d == 5 { '5' } else if d == 6 { '6' } else if d == 7 { '7' }
    else if d == 8 { '8' } else if d == 9 { '9' } else if d == 10 { 'a' } else if d == 11 { 'b' }
    else if d == 12 { 'c' } else if d == 13 { 'd' } else if d == 14 { 'e' } else { 'f' }
}

/// Appends the escaped form of one character.
fn push_escaped_char(out: &mut String, c: char)
    ensures
        final(out)@ == old(out)@ + spec_escape_char(c),
{
    if c == '"' {
        push_char(out, '\\');
        push_char(out, '"');
    } else if c == '\\' {
        push_char(out, '\\');
        push_char(out, '\\');
    } else if c == '\n' {
        push_char(out, '\\');
        push_char(out, 'n');
    } else if c == '\r' {
        push_char(out, '\\');
        push_char(out, 'r');
    } else if c == '\t' {
        push_char(out, '\\');
        push_char(out, 't');
    } else {
        let code = c as u32;
        if code < 32 {
            push_char(out, '\\');
            push_char(out, 'u');
            push_char(out, '0');
            push_char(out, '0');
            push_char(out, hex_digit(code / 16));
            push_char(out, hex_digit(code % 16));
        } else {
            push_char(out, c);
        }
    }
    proof {
        assert(final(out)@ =~= old(out)@ + spec_escape_char(c));
    }
}

/// Appends the escaped form of a whole string.
fn append_escaped(out: &mut String, s: &str)
    ensures
        final(out)@ == old(out)@ + spec_escape(s@),
{
    let ghost base = out@;
    let n = s.unicode_len();
    let mut i: usize = 0;
    while i < n
        invariant
            n == s@.len(),
            i <= n,
            out@ == base + spec_escape_prefix(s@, i as int),
        decreases n - i,
    {
        let c = s.get_char(i);
        push_escaped_char(out, c);
        i += 1;
    }
}

/// Appends a quoted, escaped string.
pub(crate) fn append_quoted(out: &mut String, s: &str)
    ensures
        final(out)@ == old(out)@ + spec_quote(s@),
{
    let ghost base = out@;
    push_char(out, '"');
    append_escaped(out, s);
    push_char(out, '"');
    proof {
        assert(out@ =~= base + spec_quote(s@));
    }
}

/// Appends the encoding of one scalar value.
fn append_value(out: &mut String, v: &FieldValue)
    ensures
        final(out)@ == old(out)@ + spec_value(*v),
{
    match v {
        FieldValue::Null => {
            out.append("null");
        }
        FieldValue::Bool(b) => {
            if *b {
                out.append("true");
            } else {
                out.append("false");
            }
        }
        FieldValue::Str(s) => {
            append_quoted(out, s.as_str());
        }
    }
}

/// Appends the encoding of a payload object.
fn append_payload(out: &mut String, p: &Payload)
    ensures
        final(out)@ == old(out)@ + spec_payload(*p),
{
    let ghost base = out@;
    push_char(out, '{');
    let n = p.fields.len();
    let mut i: usize = 0;
    while i < n
        invariant
            n == p.fields@.len(),
            i <= n,
            out@ == base + seq!['{'] + spec_fields_prefix(p.fields@, i as int),
        decreases n - i,
    {
        if i > 0 {
            push_char(out, ',');
        }
        let f = &p.fields[i];
        append_quoted(out, f.key.as_str());
        push_char(out, ':');
        append_value(out, &f.value);
        proof {
            assert(out@ =~= base + seq!['{'] + spec_fields_prefix(p.fields@, i + 1));
        }
        i += 1;
    }
    push_char(out, '}');
    proof {
        assert(out@ =~= base + spec_payload(*p));
    }
}

/// Serializes one command to its single-line record, without the newline.
pub fn encode_record(action: &str, payload: &Option<Payload>) -> (r: String)
    ensures
        r@ == spec_record(action@, *payload),
{
    let mut out = String::new();
    out.append("{\"action\":");
    append_quoted(&mut out, action);
    out.append(",\"payload\":");
    match payload {
        Option::None => {
            out.append("null");
        }
        Option::Some(p) => {
            append_payload(&mut out, p);
        }
    }
    push_char(&mut out, '}');
    proof {
        assert(out@ =~= spec_record(action@, *payload));
    }
    out
}

/// Serializes one command to its newline-terminated line.
pub fn encode_line(action: &str, payload: &Option<Payload>) -> (r: String)
    ensures
        r@ == spec_line(action@, *payload),
{
    let mut out = encode_record(action, payload);
    push_char(&mut out, '\n');
    out
}

pub(crate) proof fn lemma_one_line_concat(a: Seq<char>, b: Seq<char>)
    requires
        one_line(a),
        one_line(b),
    ensures
        one_line(a + b),
{
    assert forall|i: int| 0 <= i < (a + b).len() implies (a + b)[i] != '\n' by {
        if i < a.len() {
            assert((a + b)[i] == a[i]);
        } else {
            assert((a + b)[i] == b[i - a.len()]);
        }
    }
}

proof fn lemma_escape_char_one_line(c: char)
    ensures
        one_line(spec_escape_char(c)),
{
}

proof fn lemma_escape_prefix_one_line(s: Seq<char>, n: int)
    ensures
        one_line(spec_escape_prefix(s, n)),
    decreases n,
{
    if n <= 0 {
    } else {
        lemma_escape_prefix_one_line(s, n - 1);
        lemma_escape_char_one_line(s[n - 1]);
        lemma_one_line_concat(spec_escape_prefix(s, n - 1), spec_escape_char(s[n - 1]));
    }
}

pub(crate) proof fn lemma_quote_one_line(s: Seq<char>)
    ensures
        one_line(spec_quote(s)),
{
    lemma_escape_prefix_one_line(s, s.len() as int);
    lemma_one_line_concat(seq!['"'], spec_escape(s));
    lemma_one_line_concat(seq!['"'] + spec_escape(s), seq!['"']);
}

proof fn lemma_value_one_line(v: FieldValue)
    ensures
        one_line(spec_value(v)),
{
    reveal_strlit("null");
    reveal_strlit("true");
    reveal_strlit("false");
    match v {
        FieldValue::Null => {}
        FieldValue::Bool(b) => {}
        FieldValue::Str(s) => {
            lemma_quote_one_line(s@);
        }
    }
}

proof fn lemma_field_one_line(f: PayloadField)
    ensures
        one_line(spec_field(f)),
{
    lemma_quote_one_line(f.key@);
    lemma_value_one_line(f.value);
    lemma_one_line_concat(spec_quote(f.key@), seq![':']);
    lemma_one_line_concat(spec_quote(f.key@) + seq![':'], spec_value(f.value));
}

proof fn lemma_fields_prefix_one_line(fs: Seq<PayloadField>, n: int)
    ensures
        one_line(spec_fields_prefix(fs, n)),
    decreases n,
{
    if n <= 0 {
    } else if n == 1 {
        lemma_field_one_line(fs[0]);
    } else {
        lemma_fields_prefix_one_line(fs, n - 1);
        lemma_field_one_line(fs[n - 1]);
        lemma_one_line_concat(spec_fields_prefix(fs, n - 1), seq![',']);
        lemma_one_line_concat(spec_fields_prefix(fs, n - 1) + seq![','], spec_field(fs[n - 1]));
    }
}

proof fn lemma_opt_payload_one_line(p: Option<Payload>)
    ensures
        one_line(spec_opt_payload(p)),
{
    reveal_strlit("null");
    match p {
        Option::None => {}
        Option::Some(pl) => {
            lemma_fields_prefix_one_line(pl.fields@, pl.fields@.len() as int);
            lemma_one_line_concat(seq!['{'], spec_fields_prefix(pl.fields@, pl.fields@.len() as int));
            lemma_one_line_concat(
                seq!['{'] + spec_fields_prefix(pl.fields@, pl.fields@.len() as int),
                seq!['}'],
            );
        }
    }
}

/// The escaped form of a string, first character first. Equal to
/// `spec_escape`; this shape drives the decoding proofs.
pub open spec fn spec_escape_all(s: Seq<char>) -> Seq<char>
    decreases s.len(),
{
    if s.len() == 0 {
        Seq::empty()
    } else {
        spec_escape_char(s[0]) + spec_escape_all(s.drop_first())
    }
}

proof fn lemma_escape_all_push(s: Seq<char>, c: char)
    ensures
        spec_escape_all(s.push(c)) == spec_escape_all(s) + spec_escape_char(c),
    decreases s.len(),
{
    if s.len() == 0 {
        assert(s.push(c)[0] == c);
        assert(s.push(c).drop_first() =~= s);
        assert(spec_escape_all(s) == Seq::<char>::empty());
        assert(spec_escape_all(s.push(c)) == spec_escape_char(c) + spec_escape_all(s));
        assert(spec_escape_all(s.push(c)) =~= spec_escape_all(s) + spec_escape_char(c));
    } else {
        assert(s.push(c)[0] == s[0]);
        assert(s.push(c).drop_first() =~= s.drop_first().push(c));
        lemma_escape_all_push(s.drop_first(), c);
        assert(spec_escape_all(s.push(c)) == spec_escape_char(s[0]) + spec_escape_all(
            s.drop_first().push(c),
        ));
        assert(spec_escape_all(s.push(c)) == spec_escape_char(s[0]) + (spec_escape_all(
            s.drop_first(),
        ) + spec_escape_char(c)));
        assert(spec_escape_all(s.push(c)) =~= spec_escape_all(s) + spec_escape_char(c));
    }
}

proof fn lemma_escape_prefix_is_all(s: Seq<char>, n: int)
    requires
        0 <= n <= s.len(),
    ensures
        spec_escape_prefix(s, n) == spec_escape_all(s.take(n)),
    decreases n,
{
    if n == 0 {
        assert(s.take(0) =~= Seq::<char>::empty());
    } else {
        lemma_escape_prefix_is_all(s, n - 1);
        assert(s.take(n) =~= s.take(n - 1).push(s[n - 1]));
        lemma_escape_all_push(s.take(n - 1), s[n - 1]);
    }
}

/// The value of one hexadecimal digit character.
pub open spec fn spec_hex_val(c: char) -> int {
    if c == '0' { 0 } else if c == '1' { 1 } else if c == '2' { 2 } else if c == '3' { 3 }
    else if c == '4' { 4 } else if c == '5' { 5 } else if c == '6' { 6 } else if c == '7' { 7 }
    else if c == '8' { 8 } else if c == '9' { 9 } else if c == 'a' { 10 } else if c == 'b' { 11 }
    else if c == 'c' { 12 } else if c == 'd' { 13 } else if c == 'e' { 14 } else { 15 }
}

/// How a receiver reads a quoted string's content back: each escape
/// sequence stands for one character, everything else for itself.
pub open spec fn spec_unescape(e: Seq<char>) -> Seq<char>
    decreases e.len(),
{
    if e.len() == 0 {
        Seq::empty()
    } else if e[0] != '\\' {
        seq![e[0]] + spec_unescape(e.drop_first())
    } else if e.len() >= 2 && e[1] == '"' {
        seq!['"'] + spec_unescape(e.skip(2))
    } else if e.len() >= 2 && e[1] == '\\' {
        seq!['\\'] + spec_unescape(e.skip(2))
    } else if e.len() >= 2 && e[1] == 'n' {
        seq!['\n'] + spec_unescape(e.skip(2))
    } else if e.len() >= 2 && e[1] == 'r' {
        seq!['\r'] + spec_unescape(e.skip(2))
    } else if e.len() >= 2 && e[1] == 't' {
        seq!['\t'] + spec_unescape(e.skip(2))
    } else if e.len() >= 6 && e[1] == 'u' {
        seq![((16 * spec_hex_val(e[4]) + spec_hex_val(e[5])) as u32) as char] + spec_unescape(
            e.skip(6),
        )
    } else {
        Seq::empty()
    }
}

proof fn lemma_unescape_escape_all(s: Seq<char>)
    ensures
        spec_unescape(spec_escape_all(s)) == s,
    decreases s.len(),
{
    if s.len() == 0 {
    } else {
        let c = s[0];
        let rest = s.drop_first();
        lemma_unescape_escape_all(rest);
        let u = spec_escape_char(c);
        let e = spec_escape_all(s);
        assert(e == u + spec_escape_all(rest));
        if c == '"' || c == '\\' || c == '\n' || c == '\r' || c == '\t' {
            assert(e.skip(2) =~= spec_escape_all(rest));
            assert(spec_unescape(e) =~= s);
        } else if (c as u32) < 32 {
            assert(e.skip(6) =~= spec_escape_all(rest));
            let code = c as u32 as int;
            assert(spec_hex_val(spec_hex_digit(code / 16)) == code / 16);
            assert(spec_hex_val(spec_hex_digit(code % 16)) == code % 16);
            assert(16 * (code / 16) + code % 16 == code);
            vstd::utf8::char_u32_cast(c, c as u32);
            assert(((16 * spec_hex_val(e[4]) + spec_hex_val(e[5])) as u32) as char == c);
            assert(spec_unescape(e) =~= s);
        } else {
            assert(e.drop_first() =~= spec_escape_all(rest));
            assert(spec_unescape(e) =~= s);
        }
    }
}

/// Escaping is lossless: reading the escape sequences back yields the
/// original text, character for character. What a payload string carries —
/// quotes, backslashes, newlines, control characters — arrives unchanged.
pub proof fn lemma_escape_lossless(s: Seq<char>)
    ensures
        spec_unescape(spec_escape(s)) == s,
{
    lemma_escape_prefix_is_all(s, s.len() as int);
    assert(s.take(s.len() as int) =~= s);
    lemma_unescape_escape_all(s);
}

/// Two different strings never share an escaped form.
pub proof fn lemma_escape_injective(s1: Seq<char>, s2: Seq<char>)
    requires
        spec_escape(s1) == spec_escape(s2),
    ensures
        s1 == s2,
{
    lemma_escape_lossless(s1);
    lemma_escape_lossless(s2);
}

/// Framing integrity: an encoded line holds exactly one newline, and it is
/// the final character — a command occupies exactly one line of the
/// worker's input stream, whatever its action and payload contain.
pub proof fn lemma_line_framing(action: Seq<char>, payload: Option<Payload>)
    ensures
        spec_line(action, payload).len() >= 1,
        spec_line(action, payload).last() == '\n',
        forall|i: int|
            0 <= i < spec_line(action, payload).len() - 1 ==> spec_line(action, payload)[i]
                != '\n',
{
    lemma_record_one_line(action, payload);
}

/// Records written whole never interleave: in the byte stream of two
/// consecutive lines, the first newline closes exactly the first record,
/// and what follows it is exactly the second line.
pub proof fn lemma_lines_never_interleave(
    a1: Seq<char>,
    p1: Option<Payload>,
    a2: Seq<char>,
    p2: Option<Payload>,
)
    ensures
        ({
            let stream = spec_line(a1, p1) + spec_line(a2, p2);
            let first_len = spec_line(a1, p1).len() as int;
            &&& stream.take(first_len) == spec_line(a1, p1)
            &&& stream[first_len - 1] == '\n'
            &&& (forall|i: int| 0 <= i < first_len - 1 ==> stream[i] != '\n')
            &&& stream.skip(first_len) == spec_line(a2, p2)
        }),
{
    lemma_line_framing(a1, p1);
    let stream = spec_line(a1, p1) + spec_line(a2, p2);
    let first_len = spec_line(a1, p1).len() as int;
    assert(stream.take(first_len) =~= spec_line(a1, p1));
    assert(stream.skip(first_len) =~= spec_line(a2, p2));
    assert forall|i: int| 0 <= i < first_len - 1 implies stream[i] != '\n' by {
        assert(stream[i] == spec_line(a1, p1)[i]);
    }
}

/// An encoded record never contains a raw newline.
pub proof fn lemma_record_one_line(action: Seq<char>, payload: Option<Payload>)
    ensures
        one_line(spec_record(action, payload)),
{
    reveal_strlit("{\"action\":");
    reveal_strlit(",\"payload\":");
    lemma_quote_one_line(action);
    lemma_opt_payload_one_line(payload);
    let head = "{\"action\":"@;
    let mid = ",\"payload\":"@;
    lemma_one_line_concat(head, spec_quote(action));
    lemma_one_line_concat(head + spec_quote(action), mid);
    lemma_one_line_concat(head + spec_quote(action) + mid, spec_opt_payload(payload));
    lemma_one_line_concat(
        head + spec_quote(action) + mid + spec_opt_payload(payload),
        seq!['}'],
    );
}

} // verus!
