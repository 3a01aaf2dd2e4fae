//! The wire format spoken with the remote service: building the JSON
//! request body for a transcript, and reading the text fragment out of one
//! streamed response frame.

use vstd::prelude::*;
use vstd::string::StrSliceExecFns;

use crate::session::{first_system, without_system};
use crate::text::{chars_of, is_space_char, skip_spaces, string_from_chars, ws_from};
use crate::{Message, MessageView, Role};

verus! {

/// The hexadecimal digit for a value below sixteen.
pub open spec fn hex_digit(value: int) -> char {
    if value == 0 {
        '0'
    } else if value == 1 {
        '1'
    } else if value == 2 {
        '2'
    } else if value == 3 {
        '3'
    } else if value == 4 {
        '4'
    } else if value == 5 {
        '5'
    } else if value == 6 {
        '6'
    } else if value == 7 {
        '7'
    } else if value == 8 {
        '8'
    } else if value == 9 {
        '9'
    } else if value == 10 {
        'a'
    } else if value == 11 {
        'b'
    } else if value == 12 {
        'c'
    } else if value == 13 {
        'd'
    } else if value == 14 {
        'e'
    } else {
        'f'
    }
}

/// How one character of text is written inside a JSON string.
pub open spec fn json_escape_char(c: char) -> Seq<char> {
    if c == '"' {
        seq!['\\', '"']
    } else if c == '\\' {
        seq!['\\', '\\']
    } else if c == '\n' {
        seq!['\\', 'n']
    } else if c == '\r' {
        seq!['\\', 'r']
    } else if c == '\t' {
        seq!['\\', 't']
    } else if (c as u32) < 32 {
        seq!['\\', 'u', '0', '0', hex_digit(c as u32 as int / 16), hex_digit(c as u32 as int % 16)]
    } else {
        seq![c]
    }
}

/// Text with every character JSON-escaped.
pub open spec fn json_escape(s: Seq<char>) -> Seq<char>
    decreases s.len(),
{
    if s.len() == 0 {
        Seq::empty()
    } else {
        json_escape_char(s[0]) + json_escape(s.drop_first())
    }
}

/// JSON-escaping distributes over concatenation.
pub proof fn lemma_json_escape_append(a: Seq<char>, b: Seq<char>)
    ensures
        json_escape(a + b) == json_escape(a) + json_escape(b),
    decreases a.len(),
{
    if a.len() == 0 {
        assert(a + b =~= b);
        assert(json_escape(a) + json_escape(b) =~= json_escape(b));
    } else {
        assert((a + b).drop_first() =~= a.drop_first() + b);
        lemma_json_escape_append(a.drop_first(), b);
        assert(json_escape_char(a[0]) + (json_escape(a.drop_first()) + json_escape(b)) =~= (
        json_escape_char(a[0]) + json_escape(a.drop_first())) + json_escape(b));
    }
}

/// JSON-escaping a single character gives exactly its escaped form.
pub proof fn lemma_json_escape_singleton(c: char)
    ensures
        json_escape(seq![c]) == json_escape_char(c),
{
    assert(seq![c].drop_first() =~= Seq::<char>::empty());
    assert(json_escape(Seq::<char>::empty()) =~= Seq::<char>::empty());
    assert(json_escape(seq![c]) =~= json_escape_char(c));
}

/// A JSON string literal holding `s`.
pub open spec fn json_string(s: Seq<char>) -> Seq<char> {
    seq!['"'] + json_escape(s) + seq!['"']
}

/// The wire name of a role, as the transcript serializes it.
pub open spec fn role_name(role: Role) -> Seq<char> {
    match role {
        Role::System => "system"@,
        Role::User => "user"@,
        Role::Assistant => "assistant"@,
    }
}

/// One part object holding a text fragment.
pub open spec fn part_json(text: Seq<char>) -> Seq<char> {
    "{\"text\":"@ + json_string(text) + "}"@
}

/// One message of the request body: its role and its single text part.
pub open spec fn message_json(m: MessageView) -> Seq<char> {
    "{\"role\":\""@ + role_name(m.role) + "\",\"parts\":["@ + part_json(m.content) + "]}"@
}

/// The contents array entries, comma-separated, in transcript order.
pub open spec fn contents_json(msgs: Seq<MessageView>) -> Seq<char>
    decreases msgs.len(),
{
    if msgs.len() == 0 {
        Seq::empty()
    } else if msgs.len() == 1 {
        message_json(msgs[0])
    } else {
        contents_json(msgs.drop_last()) + ","@ + message_json(msgs.last())
    }
}

/// The system instruction field: the System message's part, or null.
pub open spec fn system_instruction_json(msgs: Seq<MessageView>) -> Seq<char> {
    match first_system(msgs) {
        Some(m) => "{\"parts\":["@ + part_json(m.content) + "]}"@,
        None => "null"@,
    }
}

/// The whole request body sent for a transcript: the System message is
/// extracted into the system-instruction field, and all remaining messages
/// are mapped in order, preserving role and text.
pub open spec fn gemini_request(msgs: Seq<MessageView>) -> Seq<char> {
    "{\"system_instruction\":"@ + system_instruction_json(msgs) + ",\"contents\":["@
        + contents_json(without_system(msgs)) + "]}"@
}

/// Appends the JSON-escaped form of `text` to `out`.
fn json_escape_into(out: &mut Vec<char>, text: &str)
    ensures
        final(out)@ == old(out)@ + json_escape(text@),
{
    let chars = chars_of(text);
    let n = chars.len();
    let mut i: usize = 0;
    proof {
        assert(out@ =~= old(out)@ + json_escape(text@.take(0)));
    }
    while i < n
        invariant
            i <= n,
            n == chars@.len(),
            chars@ == text@,
            out@ == old(out)@ + json_escape(text@.take(i as int)),
        decreases n - i,
    {
        let c = chars[i];
        if c == '"' {
            out.push('\\');
            out.push('"');
        } else if c == '\\' {
            out.push('\\');
            out.push('\\');
        } else if c == '\n' {
            out.push('\\');
            out.push('n');
        } else if c == '\r' {
            out.push('\\');
            out.push('r');
        } else if c == '\t' {
            out.push('\\');
            out.push('t');
        } else if (c as u32) < 32 {
            let value = c as u32;
            out.push('\\');
            out.push('u');
            out.push('0');
            out.push('0');
            out.push(hex_digit_char(value / 16));
            out.push(hex_digit_char(value % 16));
        } else {
            out.push(c);
        }
        proof {
            let prefix = text@.take(i as int);
            assert(text@.take(i + 1) =~= prefix + seq![text@[i as int]]);
            lemma_json_escape_append(prefix, seq![text@[i as int]]);
            lemma_json_escape_singleton(text@[i as int]);
            assert(out@ =~= old(out)@ + json_escape(text@.take(i + 1)));
        }
        i = i + 1;
    }
    proof {
        assert(text@.take(n as int) =~= text@);
    }
}

/// The hexadecimal digit for a value below sixteen.
fn hex_digit_char(value: u32) -> (digit: char)
    requires
        value < 16,
    ensures
        digit == hex_digit(value as int),
{
    if value == 0 {
        '0'
    } else if value == 1 {
        '1'
    } else if value == 2 {
        '2'
    } else if value == 3 {
        '3'
    } else if value == 4 {
        '4'
    } else if value == 5 {
        '5'
    } else if value == 6 {
        '6'
    } else if value == 7 {
        '7'
    } else if value == 8 {
        '8'
    } else if value == 9 {
        '9'
    } else if value == 10 {
        'a'
    } else if value == 11 {
        'b'
    } else if value == 12 {
        'c'
    } else if value == 13 {
        'd'
    } else if value == 14 {
        'e'
    } else {
        'f'
    }
}

/// Appends a whole JSON string literal holding `text` to `out`.
fn json_string_into(out: &mut Vec<char>, text: &str)
    ensures
        final(out)@ == old(out)@ + json_string(text@),
{
    out.push('"');
    json_escape_into(out, text);
    out.push('"');
    proof {
        assert(out@ =~= old(out)@ + json_string(text@));
    }
}

/// Appends characters of a literal to `out`.
fn push_literal(out: &mut Vec<char>, lit: &str)
    ensures
        final(out)@ == old(out)@ + lit@,
{
    let chars = chars_of(lit);
    let n = chars.len();
    let mut i: usize = 0;
    while i < n
        invariant
            i <= n,
            n == chars@.len(),
            chars@ == lit@,
            out@ == old(out)@ + lit@.take(i as int),
        decreases n - i,
    {
        out.push(chars[i]);
        proof {
            assert(out@ =~= old(out)@ + lit@.take(i + 1));
        }
        i = i + 1;
    }
    proof {
        assert(lit@.take(n as int) =~= lit@);
    }
}

/// Appends one message object of the contents array to `out`.
fn message_json_into(out: &mut Vec<char>, role: Role, content: &str)
    ensures
        final(out)@ == old(out)@ + message_json(MessageView { role, content: content@ }),
{
    push_literal(out, "{\"role\":\"");
    match role {
        Role::System => push_literal(out, "system"),
        Role::User => push_literal(out, "user"),
        Role::Assistant => push_literal(out, "assistant"),
    }
    push_literal(out, "\",\"parts\":[");
    push_literal(out, "{\"text\":");
    json_string_into(out, content);
    push_literal(out, "}");
    push_literal(out, "]}");
    proof {
        assert(out@ =~= old(out)@ + message_json(MessageView { role, content: content@ }));
    }
}

/// Builds the request body for a transcript: the first System message (if
/// any) becomes the system instruction, every other message one entry of
/// the contents array, in order, with role and text preserved.
pub fn gemini_request_body(messages: &Vec<Message>) -> (body: String)
    ensures
        body@ == gemini_request(messages.deep_view()),
{
    let ghost view = messages.deep_view();
    let mut out: Vec<char> = Vec::new();
    push_literal(&mut out, "{\"system_instruction\":");
    let system = find_system(messages);
    match system {
        Some(index) => {
            push_literal(&mut out, "{\"parts\":[");
            push_literal(&mut out, "{\"text\":");
            json_string_into(&mut out, messages[index].content.as_str());
            push_literal(&mut out, "}");
            push_literal(&mut out, "]}");
        },
        None => {
            push_literal(&mut out, "null");
        },
    }
    proof {
        assert(out@ =~= "{\"system_instruction\":"@ + system_instruction_json(view));
    }
    push_literal(&mut out, ",\"contents\":[");
    let ghost header = out@;
    let n = messages.len();
    let mut wrote_any = false;
    let mut i: usize = 0;
    proof {
        assert(without_system(view.take(0)) =~= Seq::<MessageView>::empty());
        assert(header + contents_json(without_system(view.take(0))) =~= header);
    }
    while i < n
        invariant
            i <= n,
            n == messages@.len(),
            view == messages.deep_view(),
            view.len() == n,
            out@ == header + contents_json(without_system(view.take(i as int))),
            wrote_any == (without_system(view.take(i as int)).len() > 0),
        decreases n - i,
    {
        let msg = &messages[i];
        proof {
            assert(view.take(i + 1) =~= view.take(i as int) + seq![view[i as int]]);
            crate::session::lemma_without_system_append(view.take(i as int), seq![view[i as int]]);
            crate::session::lemma_without_system_singleton(view[i as int]);
            assert(view[i as int] == msg@);
        }
        if !(matches!(msg.role, Role::System)) {
            if wrote_any {
                push_literal(&mut out, ",");
            }
            message_json_into(&mut out, msg.role, msg.content.as_str());
            wrote_any = true;
            proof {
                let kept = without_system(view.take(i as int));
                let grown = without_system(view.take(i + 1));
                assert(grown =~= kept + seq![view[i as int]]);
                assert(grown.drop_last() =~= kept);
                assert(grown.last() == view[i as int]);
                if kept.len() == 0 {
                    assert(header + contents_json(grown) =~= out@);
                } else {
                    assert(header + contents_json(grown) =~= out@);
                }
            }
        } else {
            proof {
                assert(without_system(view.take(i + 1)) =~= without_system(view.take(i as int)));
            }
        }
        i = i + 1;
    }
    push_literal(&mut out, "]}");
    proof {
        assert(view.take(n as int) =~= view);
        assert(out@ =~= gemini_request(view));
    }
    string_from_chars(&out)
}

/// `j`, raised to at least `lo` and clamped to the text's length; the
/// scanner below advances through every derived position this way, so its
/// recursions visibly make progress.
pub open spec fn pos_ge(s: Seq<char>, lo: int, j: int) -> int {
    let k = if j > lo {
        j
    } else {
        lo
    };
    if k > s.len() {
        s.len() as int
    } else {
        k
    }
}

/// Whether the character ends an unquoted JSON value.
pub open spec fn is_value_delim(c: char) -> bool {
    c == ',' || c == '}' || c == ']' || crate::text::is_space(c)
}

/// The first index at or after `i` that ends an unquoted value.
pub open spec fn prim_end(s: Seq<char>, i: int) -> int
    decreases s.len() - i,
{
    if i >= s.len() {
        s.len() as int
    } else if i >= 0 && !is_value_delim(s[i]) {
        prim_end(s, i + 1)
    } else {
        i
    }
}

/// The index just after the closing quote of a string whose body starts at
/// `i`, skipping backslash escapes; `None` for an unterminated string.
pub open spec fn string_end(s: Seq<char>, i: int) -> Option<int>
    decreases s.len() - i,
{
    if !(0 <= i < s.len()) {
        None
    } else if s[i] == '"' {
        Some(i + 1)
    } else if s[i] == '\\' {
        if i + 1 >= s.len() {
            None
        } else {
            string_end(s, i + 2)
        }
    } else {
        string_end(s, i + 1)
    }
}

/// The index just after the JSON value starting at `i`, or `None` where no
/// value starts there.
pub open spec fn skip_value(s: Seq<char>, i: int) -> Option<int>
    decreases s.len() - i, 0int,
{
    if !(0 <= i < s.len()) {
        None
    } else if s[i] == '"' {
        string_end(s, i + 1)
    } else if s[i] == '{' {
        skip_object_rest(s, i + 1)
    } else if s[i] == '[' {
        skip_array_rest(s, i + 1)
    } else if is_value_delim(s[i]) {
        None
    } else {
        Some(prim_end(s, i))
    }
}

/// The index just after an object whose opening brace stands before `i`:
/// members are skipped one by one until the closing brace.
pub open spec fn skip_object_rest(s: Seq<char>, i: int) -> Option<int>
    decreases s.len() - i, 1int,
{
    if !(0 <= i <= s.len()) {
        None
    } else {
        let p = pos_ge(s, i, skip_spaces(s, i));
        if p >= s.len() {
            None
        } else if s[p] == '}' {
            Some(p + 1)
        } else if s[p] != '"' {
            None
        } else {
            match string_end(s, p + 1) {
                None => None,
                Some(j0) => {
                    let q = pos_ge(s, p + 1, skip_spaces(s, pos_ge(s, p + 1, j0)));
                    if q >= s.len() || s[q] != ':' {
                        None
                    } else {
                        let v = pos_ge(s, q + 1, skip_spaces(s, q + 1));
                        if v >= s.len() {
                            None
                        } else {
                            match skip_value(s, v) {
                                None => None,
                                Some(e0) => {
                                    let r = pos_ge(s, v, skip_spaces(s, pos_ge(s, v, e0)));
                                    if r >= s.len() {
                                        None
                                    } else if s[r] == '}' {
                                        Some(r + 1)
                                    } else if s[r] == ',' {
                                        skip_object_rest(s, r + 1)
                                    } else {
                                        None
                                    }
                                },
                            }
                        }
                    }
                },
            }
        }
    }
}

/// The index just after an array whose opening bracket stands before `i`:
/// elements are skipped one by one until the closing bracket.
pub open spec fn skip_array_rest(s: Seq<char>, i: int) -> Option<int>
    decreases s.len() - i, 1int,
{
    if !(0 <= i <= s.len()) {
        None
    } else {
        let p = pos_ge(s, i, skip_spaces(s, i));
        if p >= s.len() {
            None
        } else if s[p] == ']' {
            Some(p + 1)
        } else {
            match skip_value(s, p) {
                None => None,
                Some(e0) => {
                    let r = pos_ge(s, p, skip_spaces(s, pos_ge(s, p, e0)));
                    if r >= s.len() {
                        None
                    } else if s[r] == ']' {
                        Some(r + 1)
                    } else if s[r] == ',' {
                        skip_array_rest(s, r + 1)
                    } else {
                        None
                    }
                },
            }
        }
    }
}

/// The position of the value stored under `key` in an object whose opening
/// brace stands before `i`; keys are compared on their raw spans.
pub open spec fn object_lookup_rest(s: Seq<char>, i: int, key: Seq<char>) -> Option<int>
    decreases s.len() - i,
{
    if !(0 <= i <= s.len()) {
        None
    } else {
        let p = pos_ge(s, i, skip_spaces(s, i));
        if p >= s.len() || s[p] != '"' {
            None
        } else {
            match string_end(s, p + 1) {
                None => None,
                Some(j0) => {
                    let j = pos_ge(s, p + 2, j0);
                    let q = pos_ge(s, j, skip_spaces(s, j));
                    if q >= s.len() || s[q] != ':' {
                        None
                    } else {
                        let v = pos_ge(s, q + 1, skip_spaces(s, q + 1));
                        if v >= s.len() {
                            None
                        } else if s.subrange(p + 1, j - 1) == key {
                            Some(v)
                        } else {
                            match skip_value(s, v) {
                                None => None,
                                Some(e0) => {
                                    let r = pos_ge(s, v, skip_spaces(s, pos_ge(s, v, e0)));
                                    if r >= s.len() || s[r] != ',' {
                                        None
                                    } else {
                                        object_lookup_rest(s, r + 1, key)
                                    }
                                },
                            }
                        }
                    }
                },
            }
        }
    }
}

/// The position of the first element of the array starting at `i`; `None`
/// for an empty array or where no array starts there.
pub open spec fn array_first(s: Seq<char>, i: int) -> Option<int> {
    if !(0 <= i < s.len()) {
        None
    } else if s[i] != '[' {
        None
    } else {
        let p = pos_ge(s, i + 1, skip_spaces(s, i + 1));
        if p >= s.len() {
            None
        } else if s[p] == ']' {
            None
        } else {
            Some(p)
        }
    }
}

/// The character a simple JSON escape stands for; unicode escapes are not
/// read and make the frame count as unexpected.
pub open spec fn json_unescape_char(c: char) -> Option<char> {
    if c == '"' {
        Some('"')
    } else if c == '\\' {
        Some('\\')
    } else if c == '/' {
        Some('/')
    } else if c == 'n' {
        Some('\n')
    } else if c == 't' {
        Some('\t')
    } else if c == 'r' {
        Some('\r')
    } else if c == 'b' {
        Some('\u{8}')
    } else if c == 'f' {
        Some('\u{c}')
    } else {
        None
    }
}

/// The unescaped content of a string whose body starts at `i`, and the
/// index just after its closing quote.
pub open spec fn string_body(s: Seq<char>, i: int) -> Option<(Seq<char>, int)>
    decreases s.len() - i,
{
    if !(0 <= i < s.len()) {
        None
    } else if s[i] == '"' {
        Some((Seq::empty(), i + 1))
    } else if s[i] == '\\' {
        if i + 1 >= s.len() {
            None
        } else {
            match json_unescape_char(s[i + 1]) {
                None => None,
                Some(c) => match string_body(s, i + 2) {
                    None => None,
                    Some((tail, e)) => Some((seq![c] + tail, e)),
                },
            }
        }
    } else {
        match string_body(s, i + 1) {
            None => None,
            Some((tail, e)) => Some((seq![s[i]] + tail, e)),
        }
    }
}

/// The unescaped content of the string literal starting at `i`.
pub open spec fn parse_string_at(s: Seq<char>, i: int) -> Option<(Seq<char>, int)> {
    if 0 <= i < s.len() && s[i] == '"' {
        string_body(s, i + 1)
    } else {
        None
    }
}

/// The first candidate's first part's text in a response payload, reading
/// only as far into the payload as that path requires.
#[verifier::opaque]
pub open spec fn extract_text(s: Seq<char>) -> Option<Seq<char>> {
    let i = pos_ge(s, 0, skip_spaces(s, 0));
    if i >= s.len() || s[i] != '{' {
        None
    } else {
        match object_lookup_rest(s, i + 1, "candidates"@) {
            None => None,
            Some(cand) => match array_first(s, cand) {
                None => None,
                Some(c0) => {
                    if s[c0] != '{' {
                        None
                    } else {
                        match object_lookup_rest(s, c0 + 1, "content"@) {
                            None => None,
                            Some(content) => {
                                if s[content] != '{' {
                                    None
                                } else {
                                    match object_lookup_rest(s, content + 1, "parts"@) {
                                        None => None,
                                        Some(parts) => match array_first(s, parts) {
                                            None => None,
                                            Some(p0) => {
                                                if s[p0] != '{' {
                                                    None
                                                } else {
                                                    match object_lookup_rest(s, p0 + 1, "text"@) {
                                                        None => None,
                                                        Some(t) => match parse_string_at(s, t) {
                                                            None => None,
                                                            Some((text, _)) => Some(text),
                                                        },
                                                    }
                                                }
                                            },
                                        },
                                    }
                                }
                            },
                        }
                    }
                },
            },
        }
    }
}

/// The payload of a framed event: the fixed prefix stripped, or `None`
/// where the frame does not carry it.
pub open spec fn strip_data_prefix(line: Seq<char>) -> Option<Seq<char>> {
    if line.len() >= 6 && line.take(6) == "data: "@ {
        Some(line.skip(6))
    } else {
        None
    }
}

/// The text fragment one framed event carries, or `None` where the frame
/// cannot be read: no known prefix, or a payload that does not match the
/// expected schema.
pub open spec fn frame_text(line: Seq<char>) -> Option<Seq<char>> {
    match strip_data_prefix(line) {
        None => None,
        Some(payload) => extract_text(payload),
    }
}

/// Whether the character ends an unquoted JSON value.
fn is_value_delim_char(c: char) -> (delim: bool)
    ensures
        delim == is_value_delim(c),
{
    c == ',' || c == '}' || c == ']' || is_space_char(c)
}

/// The first index at or after `i` that ends an unquoted value.
fn prim_end_exec(chars: &Vec<char>, i: usize) -> (end: usize)
    requires
        i <= chars@.len(),
    ensures
        i <= end <= chars@.len(),
        end as int == prim_end(chars@, i as int),
        i < chars@.len() && !is_value_delim(chars@[i as int]) ==> end > i,
{
    let n = chars.len();
    let mut j = i;
    while j < n
        invariant
            i <= j <= n,
            n == chars@.len(),
            prim_end(chars@, i as int) == prim_end(chars@, j as int),
            i < n && !is_value_delim(chars@[i as int]) ==> j > i || !is_value_delim(
                chars@[j as int],
            ),
        decreases n - j,
    {
        if is_value_delim_char(chars[j]) {
            proof {
                assert(prim_end(chars@, j as int) == j);
            }
            return j;
        }
        j = j + 1;
    }
    j
}

/// The index just after the closing quote of a string body starting at `i`.
fn string_end_exec(chars: &Vec<char>, i: usize) -> (end: Option<usize>)
    requires
        i <= chars@.len(),
    ensures
        match end {
            Some(e) => string_end(chars@, i as int) == Some(e as int) && i < e <= chars@.len(),
            None => string_end(chars@, i as int) is None,
        },
{
    let n = chars.len();
    let mut j = i;
    while j < n
        invariant
            i <= j <= n,
            n == chars@.len(),
            string_end(chars@, i as int) == string_end(chars@, j as int),
        decreases n - j,
    {
        let c = chars[j];
        if c == '"' {
            return Some(j + 1);
        }
        if c == '\\' {
            if j + 1 >= n {
                return None;
            }
            j = j + 2;
        } else {
            j = j + 1;
        }
    }
    None
}

/// The index just after the JSON value starting at `i`.
fn skip_value_exec(chars: &Vec<char>, i: usize) -> (end: Option<usize>)
    requires
        i <= chars@.len(),
    ensures
        match end {
            Some(e) => skip_value(chars@, i as int) == Some(e as int) && i < e <= chars@.len(),
            None => skip_value(chars@, i as int) is None,
        },
    decreases chars@.len() - i, 0int,
{
    let n = chars.len();
    if i >= n {
        return None;
    }
    let c = chars[i];
    if c == '"' {
        string_end_exec(chars, i + 1)
    } else if c == '{' {
        skip_object_rest_exec(chars, i + 1)
    } else if c == '[' {
        skip_array_rest_exec(chars, i + 1)
    } else if is_value_delim_char(c) {
        None
    } else {
        Some(prim_end_exec(chars, i))
    }
}

/// The index just after an object whose opening brace stands before `i`.
fn skip_object_rest_exec(chars: &Vec<char>, i: usize) -> (end: Option<usize>)
    requires
        i <= chars@.len(),
    ensures
        match end {
            Some(e) => skip_object_rest(chars@, i as int) == Some(e as int) && i < e
                <= chars@.len(),
            None => skip_object_rest(chars@, i as int) is None,
        },
    decreases chars@.len() - i, 1int,
{
    let ghost s = chars@;
    let n = chars.len();
    let p = ws_from(chars, i);
    proof {
        assert(pos_ge(s, i as int, skip_spaces(s, i as int)) == p as int);
    }
    if p >= n {
        return None;
    }
    let cp = chars[p];
    if cp == '}' {
        return Some(p + 1);
    }
    if cp != '"' {
        return None;
    }
    match string_end_exec(chars, p + 1) {
        None => None,
        Some(j0) => {
            let q = ws_from(chars, j0);
            proof {
                assert(pos_ge(s, p + 1, j0 as int) == j0 as int);
                assert(pos_ge(s, p + 1, skip_spaces(s, j0 as int)) == q as int);
            }
            if q >= n {
                return None;
            }
            if chars[q] != ':' {
                return None;
            }
            let v = ws_from(chars, q + 1);
            proof {
                assert(pos_ge(s, q + 1, skip_spaces(s, q + 1)) == v as int);
            }
            if v >= n {
                return None;
            }
            match skip_value_exec(chars, v) {
                None => None,
                Some(e0) => {
                    let r = ws_from(chars, e0);
                    proof {
                        assert(pos_ge(s, v as int, e0 as int) == e0 as int);
                        assert(pos_ge(s, v as int, skip_spaces(s, e0 as int)) == r as int);
                    }
                    if r >= n {
                        return None;
                    }
                    let cr = chars[r];
                    if cr == '}' {
                        Some(r + 1)
                    } else if cr == ',' {
                        skip_object_rest_exec(chars, r + 1)
                    } else {
                        None
                    }
                },
            }
        },
    }
}

/// The index just after an array whose opening bracket stands before `i`.
fn skip_array_rest_exec(chars: &Vec<char>, i: usize) -> (end: Option<usize>)
    requires
        i <= chars@.len(),
    ensures
        match end {
            Some(e) => skip_array_rest(chars@, i as int) == Some(e as int) && i < e
                <= chars@.len(),
            None => skip_array_rest(chars@, i as int) is None,
        },
    decreases chars@.len() - i, 1int,
{
    let ghost s = chars@;
    let n = chars.len();
    let p = ws_from(chars, i);
    proof {
        assert(pos_ge(s, i as int, skip_spaces(s, i as int)) == p as int);
    }
    if p >= n {
        return None;
    }
    if chars[p] == ']' {
        return Some(p + 1);
    }
    match skip_value_exec(chars, p) {
        None => None,
        Some(e0) => {
            let r = ws_from(chars, e0);
            proof {
                assert(pos_ge(s, p as int, e0 as int) == e0 as int);
                assert(pos_ge(s, p as int, skip_spaces(s, e0 as int)) == r as int);
            }
            if r >= n {
                return None;
            }
            let cr = chars[r];
            if cr == ']' {
                Some(r + 1)
            } else if cr == ',' {
                skip_array_rest_exec(chars, r + 1)
            } else {
                None
            }
        },
    }
}

/// Whether the characters of `chars` between `from` and `to` are exactly
/// the characters of `key`.
fn span_matches(chars: &Vec<char>, from: usize, to: usize, key: &str) -> (found: bool)
    requires
        from <= to <= chars@.len(),
    ensures
        found == (chars@.subrange(from as int, to as int) == key@),
{
    let klen = key.unicode_len();
    if to - from != klen {
        proof {
            assert(chars@.subrange(from as int, to as int).len() != key@.len());
        }
        return false;
    }
    let mut k: usize = 0;
    while k < klen
        invariant
            k <= klen,
            klen == key@.len(),
            from <= to <= chars@.len(),
            to - from == klen,
            forall|m: int| 0 <= m < k ==> chars@[from + m] == key@[m],
        decreases klen - k,
    {
        if chars[from + k] != key.get_char(k) {
            proof {
                assert(chars@.subrange(from as int, to as int)[k as int] != key@[k as int]);
            }
            return false;
        }
        k = k + 1;
    }
    proof {
        assert(chars@.subrange(from as int, to as int) =~= key@);
    }
    true
}

/// The position of the value stored under `key` in an object whose opening
/// brace stands before `i`.
fn object_lookup_rest_exec(chars: &Vec<char>, i: usize, key: &str) -> (found: Option<usize>)
    requires
        i <= chars@.len(),
    ensures
        match found {
            Some(v) => object_lookup_rest(chars@, i as int, key@) == Some(v as int) && v
                < chars@.len(),
            None => object_lookup_rest(chars@, i as int, key@) is None,
        },
    decreases chars@.len() - i,
{
    let ghost s = chars@;
    let n = chars.len();
    let p = ws_from(chars, i);
    proof {
        assert(pos_ge(s, i as int, skip_spaces(s, i as int)) == p as int);
    }
    if p >= n {
        return None;
    }
    if chars[p] != '"' {
        return None;
    }
    match string_end_exec(chars, p + 1) {
        None => None,
        Some(j0) => {
            proof {
                assert(pos_ge(s, p + 2, j0 as int) == j0 as int);
            }
            let q = ws_from(chars, j0);
            proof {
                assert(pos_ge(s, j0 as int, skip_spaces(s, j0 as int)) == q as int);
            }
            if q >= n {
                return None;
            }
            if chars[q] != ':' {
                return None;
            }
            let v = ws_from(chars, q + 1);
            proof {
                assert(pos_ge(s, q + 1, skip_spaces(s, q + 1)) == v as int);
            }
            if v >= n {
                return None;
            }
            if span_matches(chars, p + 1, j0 - 1, key) {
                return Some(v);
            }
            match skip_value_exec(chars, v) {
                None => None,
                Some(e0) => {
                    let r = ws_from(chars, e0);
                    proof {
                        assert(pos_ge(s, v as int, e0 as int) == e0 as int);
                        assert(pos_ge(s, v as int, skip_spaces(s, e0 as int)) == r as int);
                    }
                    if r >= n {
                        return None;
                    }
                    if chars[r] != ',' {
                        return None;
                    }
                    object_lookup_rest_exec(chars, r + 1, key)
                },
            }
        },
    }
}

/// The position of the first element of the array starting at `i`.
fn array_first_exec(chars: &Vec<char>, i: usize) -> (found: Option<usize>)
    requires
        i <= chars@.len(),
    ensures
        match found {
            Some(p) => array_first(chars@, i as int) == Some(p as int) && p < chars@.len(),
            None => array_first(chars@, i as int) is None,
        },
{
    let ghost s = chars@;
    let n = chars.len();
    if i >= n {
        return None;
    }
    if chars[i] != '[' {
        return None;
    }
    let p = ws_from(chars, i + 1);
    proof {
        assert(pos_ge(s, i + 1, skip_spaces(s, i + 1)) == p as int);
    }
    if p >= n {
        return None;
    }
    if chars[p] == ']' {
        return None;
    }
    Some(p)
}

/// The character a simple JSON escape stands for.
fn json_unescape_char_exec(c: char) -> (decoded: Option<char>)
    ensures
        decoded == json_unescape_char(c),
{
    if c == '"' {
        Some('"')
    } else if c == '\\' {
        Some('\\')
    } else if c == '/' {
        Some('/')
    } else if c == 'n' {
        Some('\n')
    } else if c == 't' {
        Some('\t')
    } else if c == 'r' {
        Some('\r')
    } else if c == 'b' {
        Some('\u{8}')
    } else if c == 'f' {
        Some('\u{c}')
    } else {
        None
    }
}

/// The unescaped content of the string literal starting at `i`, and the
/// index just after its closing quote.
fn parse_string_exec(chars: &Vec<char>, i: usize) -> (parsed: Option<(Vec<char>, usize)>)
    requires
        i <= chars@.len(),
    ensures
        match parsed {
            Some(content) => parse_string_at(chars@, i as int) == Some(
                (content.0@, content.1 as int),
            ),
            None => parse_string_at(chars@, i as int) is None,
        },
{
    let ghost s = chars@;
    let n = chars.len();
    if i >= n {
        return None;
    }
    if chars[i] != '"' {
        return None;
    }
    let mut out: Vec<char> = Vec::new();
    let mut j = i + 1;
    while j < n
        invariant
            i + 1 <= j <= n,
            n == chars@.len(),
            s == chars@,
            parse_string_at(s, i as int) == string_body(s, i + 1),
            match string_body(s, j as int) {
                Some(parsed) => string_body(s, i + 1) == Some((out@ + parsed.0, parsed.1)),
                None => string_body(s, i + 1) is None,
            },
        decreases n - j,
    {
        let c = chars[j];
        if c == '"' {
            proof {
                assert(out@ + Seq::<char>::empty() =~= out@);
            }
            return Some((out, j + 1));
        }
        if c == '\\' {
            if j + 1 >= n {
                return None;
            }
            match json_unescape_char_exec(chars[j + 1]) {
                None => {
                    return None;
                },
                Some(decoded) => {
                    out.push(decoded);
                    proof {
                        if let Some(parsed) = string_body(s, j + 2) {
                            assert(out@ + parsed.0 =~= out@.drop_last() + (seq![decoded]
                                + parsed.0));
                        }
                    }
                    j = j + 2;
                },
            }
        } else {
            out.push(c);
            proof {
                if let Some(parsed) = string_body(s, j + 1) {
                    assert(out@ + parsed.0 =~= out@.drop_last() + (seq![c] + parsed.0));
                }
            }
            j = j + 1;
        }
    }
    None
}

/// The first candidate's first part's text in a response payload.
fn extract_text_exec(chars: &Vec<char>) -> (text: Option<Vec<char>>)
    ensures
        match text {
            Some(content) => extract_text(chars@) == Some(content@),
            None => extract_text(chars@) is None,
        },
{
    proof {
        reveal(extract_text);
    }
    let ghost s = chars@;
    let n = chars.len();
    let i = ws_from(chars, 0);
    proof {
        assert(pos_ge(s, 0, skip_spaces(s, 0)) == i as int);
    }
    if i >= n {
        return None;
    }
    if chars[i] != '{' {
        return None;
    }
    let cand = match object_lookup_rest_exec(chars, i + 1, "candidates") {
        Some(cand) => cand,
        None => {
            return None;
        },
    };
    let c0 = match array_first_exec(chars, cand) {
        Some(c0) => c0,
        None => {
            return None;
        },
    };
    if chars[c0] != '{' {
        return None;
    }
    let content = match object_lookup_rest_exec(chars, c0 + 1, "content") {
        Some(content) => content,
        None => {
            return None;
        },
    };
    if chars[content] != '{' {
        return None;
    }
    let parts = match object_lookup_rest_exec(chars, content + 1, "parts") {
        Some(parts) => parts,
        None => {
            return None;
        },
    };
    let p0 = match array_first_exec(chars, parts) {
        Some(p0) => p0,
        None => {
            return None;
        },
    };
    if chars[p0] != '{' {
        return None;
    }
    let t = match object_lookup_rest_exec(chars, p0 + 1, "text") {
        Some(t) => t,
        None => {
            return None;
        },
    };
    match parse_string_exec(chars, t) {
        Some(parsed) => Some(parsed.0),
        None => None,
    }
}

/// Reads the text fragment out of one framed event: the fixed prefix is
/// stripped and the remaining payload is read against the expected schema;
/// a frame that cannot be read yields the unexpected-response failure.
pub fn decode_frame(line: &str) -> (fragment: Result<String, crate::ChatbotChatError>)
    ensures
        match frame_text(line@) {
            Some(text) => fragment matches Ok(t) && t@ == text,
            None => fragment matches Err(e) && e is UnexpectedResponse,
        },
{
    let chars = chars_of(line);
    let n = chars.len();
    if n < 6 {
        return Err(crate::ChatbotChatError::UnexpectedResponse);
    }
    proof {
        assert(line@.take(6) =~= chars@.subrange(0, 6));
    }
    if !span_matches(&chars, 0, 6, "data: ") {
        return Err(crate::ChatbotChatError::UnexpectedResponse);
    }
    let payload = crate::text::chars_range(&chars, 6, n);
    proof {
        assert(payload@ =~= line@.skip(6));
    }
    match extract_text_exec(&payload) {
        Some(content) => Ok(string_from_chars(&content)),
        None => Err(crate::ChatbotChatError::UnexpectedResponse),
    }
}

/// The index of the first System message, if any.
fn find_system(messages: &Vec<Message>) -> (found: Option<usize>)
    ensures
        match found {
            Some(i) => i < messages@.len() && first_system(messages.deep_view()) == Some(
                messages@[i as int]@,
            ),
            None => first_system(messages.deep_view()) is None,
        },
{
    let ghost view = messages.deep_view();
    let n = messages.len();
    let mut i: usize = 0;
    proof {
        assert(view.skip(0) =~= view);
    }
    while i < n
        invariant
            i <= n,
            n == messages@.len(),
            view == messages.deep_view(),
            view.len() == n,
            first_system(view) == first_system(view.skip(i as int)),
        decreases n - i,
    {
        proof {
            assert(view.skip(i as int)[0] == view[i as int]);
            assert(view.skip(i as int).drop_first() =~= view.skip(i + 1));
        }
        if matches!(messages[i].role, Role::System) {
            return Some(i);
        }
        i = i + 1;
    }
    proof {
        assert(view.skip(n as int).len() == 0);
    }
    None
}

} // verus!
