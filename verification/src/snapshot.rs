//! The snapshot codec: a transcript is persisted as one line per message,
//! a role letter followed by the content with backslashes and newlines
//! escaped. Parsing a snapshot produced here gives back exactly the same
//! ordered message sequence, byte for byte.

use vstd::prelude::*;

use crate::text::{chars_of, chars_range, string_from_chars};
use crate::{Message, MessageView, Role};

verus! {

/// How one character of message content is written in a snapshot line.
pub open spec fn escape_char(c: char) -> Seq<char> {
    if c == '\\' {
        seq!['\\', '\\']
    } else if c == '\n' {
        seq!['\\', 'n']
    } else {
        seq![c]
    }
}

/// Message content with every backslash and newline escaped.
pub open spec fn escape(s: Seq<char>) -> Seq<char>
    decreases s.len(),
{
    if s.len() == 0 {
        Seq::empty()
    } else {
        escape_char(s[0]) + escape(s.drop_first())
    }
}

/// The inverse reading of [`escape`]: `None` on a dangling or unknown
/// escape sequence.
pub open spec fn unescape(s: Seq<char>) -> Option<Seq<char>>
    decreases s.len(),
{
    if s.len() == 0 {
        Some(Seq::empty())
    } else if s[0] == '\\' {
        if s.len() < 2 {
            None
        } else {
            let decoded = if s[1] == '\\' {
                Some('\\')
            } else if s[1] == 'n' {
                Some('\n')
            } else {
                None
            };
            match decoded {
                None => None,
                Some(c) => match unescape(s.skip(2)) {
                    None => None,
                    Some(tail) => Some(seq![c] + tail),
                },
            }
        }
    } else {
        match unescape(s.skip(1)) {
            None => None,
            Some(tail) => Some(seq![s[0]] + tail),
        }
    }
}

/// Escaping distributes over concatenation.
pub proof fn lemma_escape_append(a: Seq<char>, b: Seq<char>)
    ensures
        escape(a + b) == escape(a) + escape(b),
    decreases a.len(),
{
    if a.len() == 0 {
        assert(a + b =~= b);
        assert(escape(a) + escape(b) =~= escape(b));
    } else {
        assert((a + b).drop_first() =~= a.drop_first() + b);
        lemma_escape_append(a.drop_first(), b);
        assert(escape_char(a[0]) + (escape(a.drop_first()) + escape(b)) =~= (escape_char(a[0])
            + escape(a.drop_first())) + escape(b));
    }
}

/// Escaped content never holds a raw newline.
pub proof fn lemma_escape_no_newline(s: Seq<char>)
    ensures
        forall|i: int| 0 <= i < escape(s).len() ==> escape(s)[i] != '\n',
    decreases s.len(),
{
    if s.len() > 0 {
        lemma_escape_no_newline(s.drop_first());
        let c = s[0];
        assert forall|i: int| 0 <= i < escape(s).len() implies escape(s)[i] != '\n' by {
            if i < escape_char(c).len() {
                assert(escape(s)[i] == escape_char(c)[i]);
            } else {
                assert(escape(s)[i] == escape(s.drop_first())[i - escape_char(c).len()]);
            }
        }
    }
}

/// Escaping a single character gives exactly its escaped form.
pub proof fn lemma_escape_singleton(c: char)
    ensures
        escape(seq![c]) == escape_char(c),
{
    assert(seq![c].drop_first() =~= Seq::<char>::empty());
    assert(escape(Seq::<char>::empty()) =~= Seq::<char>::empty());
    assert(escape(seq![c]) =~= escape_char(c));
}

/// Reading escaped content followed by anything else first gives back the
/// content exactly, then continues with the rest.
pub proof fn lemma_unescape_escape(content: Seq<char>, rest: Seq<char>)
    ensures
        unescape(escape(content) + rest) == match unescape(rest) {
            None => None::<Seq<char>>,
            Some(tail) => Some(content + tail),
        },
    decreases content.len(),
{
    if content.len() == 0 {
        assert(escape(content) + rest =~= rest);
        if let Some(tail) = unescape(rest) {
            assert(content + tail =~= tail);
        }
    } else {
        let c = content[0];
        let total = escape(content) + rest;
        lemma_unescape_escape(content.drop_first(), rest);
        if c == '\\' || c == '\n' {
            assert(total.skip(2) =~= escape(content.drop_first()) + rest);
            if let Some(tail) = unescape(rest) {
                assert(seq![c] + (content.drop_first() + tail) =~= content + tail);
            }
        } else {
            assert(total[0] == c);
            assert(total.skip(1) =~= escape(content.drop_first()) + rest);
            if let Some(tail) = unescape(rest) {
                assert(seq![c] + (content.drop_first() + tail) =~= content + tail);
            }
        }
    }
}

/// Reading escaped content gives back the content exactly.
pub proof fn lemma_escape_round_trip(content: Seq<char>)
    ensures
        unescape(escape(content)) == Some(content),
{
    lemma_unescape_escape(content, Seq::empty());
    assert(escape(content) + Seq::<char>::empty() =~= escape(content));
    assert(content + Seq::<char>::empty() =~= content);
}

/// The letter a role is written as.
pub open spec fn role_char(role: Role) -> char {
    match role {
        Role::System => 's',
        Role::User => 'u',
        Role::Assistant => 'a',
    }
}

/// The role a letter stands for, if any.
pub open spec fn char_role(c: char) -> Option<Role> {
    if c == 's' {
        Some(Role::System)
    } else if c == 'u' {
        Some(Role::User)
    } else if c == 'a' {
        Some(Role::Assistant)
    } else {
        None
    }
}

/// One snapshot line: the role letter, the escaped content, a newline.
pub open spec fn message_line(m: MessageView) -> Seq<char> {
    seq![role_char(m.role)] + escape(m.content) + seq!['\n']
}

/// The full snapshot text of a transcript, in message order.
pub open spec fn snapshot_text(msgs: Seq<MessageView>) -> Seq<char>
    decreases msgs.len(),
{
    if msgs.len() == 0 {
        Seq::empty()
    } else {
        message_line(msgs[0]) + snapshot_text(msgs.drop_first())
    }
}

/// A transcript extended by one message snapshots to the old text plus one
/// more line.
pub proof fn lemma_snapshot_text_push(msgs: Seq<MessageView>, m: MessageView)
    ensures
        snapshot_text(msgs.push(m)) == snapshot_text(msgs) + message_line(m),
    decreases msgs.len(),
{
    if msgs.len() == 0 {
        assert(msgs.push(m).drop_first() =~= Seq::<MessageView>::empty());
        assert(msgs.push(m)[0] == m);
        assert(snapshot_text(Seq::<MessageView>::empty()) =~= Seq::<char>::empty());
        assert(snapshot_text(msgs.push(m)) =~= message_line(m));
        assert(snapshot_text(msgs) + message_line(m) =~= message_line(m));
    } else {
        assert(msgs.push(m).drop_first() =~= msgs.drop_first().push(m));
        assert(msgs.push(m)[0] == msgs[0]);
        lemma_snapshot_text_push(msgs.drop_first(), m);
        assert(message_line(msgs[0]) + (snapshot_text(msgs.drop_first()) + message_line(m)) =~= (
        message_line(msgs[0]) + snapshot_text(msgs.drop_first())) + message_line(m));
    }
}

/// The first index at or after `i` holding a newline, or the length of `s`.
pub open spec fn newline_at(s: Seq<char>, i: int) -> int
    decreases s.len() - i,
{
    if i >= s.len() {
        s.len() as int
    } else if i >= 0 && s[i] != '\n' {
        newline_at(s, i + 1)
    } else {
        i
    }
}

pub proof fn lemma_newline_at(s: Seq<char>, i: int)
    requires
        0 <= i <= s.len(),
    ensures
        i <= newline_at(s, i) <= s.len(),
        forall|j: int| i <= j < newline_at(s, i) ==> s[j] != '\n',
        newline_at(s, i) < s.len() ==> s[newline_at(s, i)] == '\n',
    decreases s.len() - i,
{
    if i < s.len() && s[i] != '\n' {
        lemma_newline_at(s, i + 1);
    }
}

/// `newline_at` is pinned by exhibiting the first newline directly.
pub proof fn lemma_newline_at_pin(s: Seq<char>, p: int)
    requires
        0 <= p <= s.len(),
        forall|j: int| 0 <= j < p ==> s[j] != '\n',
        p < s.len() ==> s[p] == '\n',
    ensures
        newline_at(s, 0) == p,
{
    lemma_newline_at(s, 0);
}

/// The inverse reading of [`snapshot_text`]: the ordered messages a
/// snapshot holds, or `None` where the text is not a snapshot.
pub open spec fn parse_snapshot(s: Seq<char>) -> Option<Seq<MessageView>>
    decreases s.len(),
{
    if s.len() == 0 {
        Some(Seq::empty())
    } else {
        let j = newline_at(s, 0);
        if !(0 <= j < s.len()) {
            None
        } else {
            match char_role(s[0]) {
                None => None,
                Some(role) => match unescape(s.subrange(1, j)) {
                    None => None,
                    Some(content) => match parse_snapshot(s.skip(j + 1)) {
                        None => None,
                        Some(tail) => Some(seq![MessageView { role, content }] + tail),
                    },
                },
            }
        }
    }
}

/// Parsing a snapshot followed by anything else first gives back exactly
/// the messages it was written from, then continues with the rest.
pub proof fn lemma_parse_snapshot_lines(msgs: Seq<MessageView>, rest: Seq<char>)
    ensures
        parse_snapshot(snapshot_text(msgs) + rest) == match parse_snapshot(rest) {
            None => None::<Seq<MessageView>>,
            Some(tail) => Some(msgs + tail),
        },
    decreases msgs.len(),
{
    if msgs.len() == 0 {
        assert(snapshot_text(msgs) + rest =~= rest);
        if let Some(tail) = parse_snapshot(rest) {
            assert(msgs + tail =~= tail);
        }
    } else {
        let m = msgs[0];
        let line = message_line(m);
        let total = snapshot_text(msgs) + rest;
        let esc = escape(m.content);
        assert(total =~= line + (snapshot_text(msgs.drop_first()) + rest));
        lemma_escape_no_newline(m.content);
        let p: int = 1 + esc.len() as int;
        assert(forall|j: int| 0 <= j < p ==> total[j] != '\n') by {
            assert(total[0] == role_char(m.role));
            assert(forall|j: int| 1 <= j < p ==> total[j] == esc[j - 1]);
        }
        assert(total[p] == '\n');
        lemma_newline_at_pin(total, p);
        assert(char_role(total[0]) == Some(m.role));
        assert(total.subrange(1, p) =~= esc);
        lemma_escape_round_trip(m.content);
        assert(total.skip(p + 1) =~= snapshot_text(msgs.drop_first()) + rest);
        lemma_parse_snapshot_lines(msgs.drop_first(), rest);
        if let Some(tail) = parse_snapshot(rest) {
            assert(seq![MessageView { role: m.role, content: m.content }] + (msgs.drop_first()
                + tail) =~= msgs + tail);
            assert(MessageView { role: m.role, content: m.content } == m);
        }
    }
}

/// The snapshot round trip: parsing the text a transcript was saved as
/// reproduces the identical ordered message sequence.
pub proof fn lemma_snapshot_round_trip(msgs: Seq<MessageView>)
    ensures
        parse_snapshot(snapshot_text(msgs)) == Some(msgs),
{
    lemma_parse_snapshot_lines(msgs, Seq::empty());
    assert(snapshot_text(msgs) + Seq::<char>::empty() =~= snapshot_text(msgs));
    assert(msgs + Seq::<MessageView>::empty() =~= msgs);
}

/// Appends the escaped form of `content` to `out`.
fn escape_into(out: &mut Vec<char>, content: &str)
    ensures
        final(out)@ == old(out)@ + escape(content@),
{
    let chars = chars_of(content);
    let n = chars.len();
    let mut i: usize = 0;
    proof {
        assert(out@ =~= old(out)@ + escape(content@.take(0)));
    }
    while i < n
        invariant
            i <= n,
            n == chars@.len(),
            chars@ == content@,
            out@ == old(out)@ + escape(content@.take(i as int)),
        decreases n - i,
    {
        let c = chars[i];
        if c == '\\' {
            out.push('\\');
            out.push('\\');
        } else if c == '\n' {
            out.push('\\');
            out.push('n');
        } else {
            out.push(c);
        }
        proof {
            let prefix = content@.take(i as int);
            assert(content@.take(i + 1) =~= prefix + seq![content@[i as int]]);
            lemma_escape_append(prefix, seq![content@[i as int]]);
            lemma_escape_singleton(content@[i as int]);
            assert(out@ =~= old(out)@ + escape(content@.take(i + 1)));
        }
        i = i + 1;
    }
    proof {
        assert(content@.take(n as int) =~= content@);
    }
}

/// Writes the snapshot text of a transcript.
pub fn snapshot_string(messages: &Vec<Message>) -> (text: String)
    ensures
        text@ == snapshot_text(messages.deep_view()),
{
    let n = messages.len();
    let mut out: Vec<char> = Vec::new();
    let mut i: usize = 0;
    proof {
        assert(out@ =~= snapshot_text(messages.deep_view().take(0)));
    }
    while i < n
        invariant
            i <= n,
            n == messages@.len(),
            messages.deep_view().len() == n,
            out@ == snapshot_text(messages.deep_view().take(i as int)),
        decreases n - i,
    {
        let msg = &messages[i];
        let letter = match msg.role {
            Role::System => 's',
            Role::User => 'u',
            Role::Assistant => 'a',
        };
        out.push(letter);
        escape_into(&mut out, msg.content.as_str());
        out.push('\n');
        proof {
            let view = messages.deep_view();
            assert(view[i as int] == messages@[i as int]@);
            assert(view.take(i + 1) =~= view.take(i as int).push(view[i as int]));
            lemma_snapshot_text_push(view.take(i as int), view[i as int]);
            assert(out@ =~= snapshot_text(view.take(i as int)) + message_line(view[i as int]));
        }
        i = i + 1;
    }
    proof {
        assert(messages.deep_view().take(n as int) =~= messages.deep_view());
    }
    string_from_chars(&out)
}

/// Reads the characters of `chars` between `from` and `to` as escaped
/// content.
fn unescape_range(chars: &Vec<char>, from: usize, to: usize) -> (content: Option<Vec<char>>)
    requires
        from <= to <= chars@.len(),
    ensures
        match content {
            Some(out) => unescape(chars@.subrange(from as int, to as int)) == Some(out@),
            None => unescape(chars@.subrange(from as int, to as int)) is None,
        },
{
    let ghost target = chars@.subrange(from as int, to as int);
    let mut out: Vec<char> = Vec::new();
    let mut i: usize = from;
    while i < to
        invariant
            from <= i <= to <= chars@.len(),
            target == chars@.subrange(from as int, to as int),
            match unescape(chars@.subrange(i as int, to as int)) {
                Some(tail) => unescape(target) == Some(out@ + tail),
                None => unescape(target) is None,
            },
        decreases to - i,
    {
        let ghost suffix = chars@.subrange(i as int, to as int);
        let c = chars[i];
        proof {
            assert(suffix[0] == c);
        }
        if c == '\\' {
            if i + 1 >= to {
                proof {
                    assert(suffix.len() < 2);
                }
                return None;
            }
            let c2 = chars[i + 1];
            proof {
                assert(suffix[1] == c2);
                assert(suffix.skip(2) =~= chars@.subrange(i + 2, to as int));
            }
            if c2 == '\\' {
                out.push('\\');
            } else if c2 == 'n' {
                out.push('\n');
            } else {
                return None;
            }
            proof {
                let decoded: char = if c2 == '\\' {
                    '\\'
                } else {
                    '\n'
                };
                if let Some(tail) = unescape(chars@.subrange(i + 2, to as int)) {
                    assert(out@ + tail =~= (out@.drop_last() + (seq![decoded] + tail)));
                }
            }
            i = i + 2;
        } else {
            out.push(c);
            proof {
                assert(suffix.skip(1) =~= chars@.subrange(i + 1, to as int));
                if let Some(tail) = unescape(chars@.subrange(i + 1, to as int)) {
                    assert(out@ + tail =~= (out@.drop_last() + (seq![c] + tail)));
                }
            }
            i = i + 1;
        }
    }
    proof {
        assert(chars@.subrange(i as int, to as int).len() == 0);
        assert(out@ + Seq::<char>::empty() =~= out@);
    }
    Some(out)
}

/// Reads a snapshot text back into its ordered messages, or `None` where
/// the text is not a snapshot.
pub fn parse_snapshot_str(text: &str) -> (messages: Option<Vec<Message>>)
    ensures
        match messages {
            Some(out) => parse_snapshot(text@) == Some(out.deep_view()),
            None => parse_snapshot(text@) is None,
        },
{
    let chars = chars_of(text);
    let n = chars.len();
    let mut out: Vec<Message> = Vec::new();
    let mut pos: usize = 0;
    proof {
        assert(text@.skip(0) =~= text@);
        if let Some(tail) = parse_snapshot(text@) {
            assert(out.deep_view() + tail =~= tail);
        }
    }
    while pos < n
        invariant
            pos <= n,
            n == chars@.len(),
            chars@ == text@,
            match parse_snapshot(text@.skip(pos as int)) {
                Some(tail) => parse_snapshot(text@) == Some(out.deep_view() + tail),
                None => parse_snapshot(text@) is None,
            },
        decreases n - pos,
    {
        let ghost suffix = text@.skip(pos as int);
        let mut q: usize = pos;
        while q < n
            invariant
                pos <= q <= n,
                n == chars@.len(),
                chars@ == text@,
                forall|j: int| pos <= j < q ==> text@[j] != '\n',
            ensures
                pos <= q <= n,
                forall|j: int| pos <= j < q ==> text@[j] != '\n',
                q < n ==> text@[q as int] == '\n',
            decreases n - q,
        {
            if chars[q] == '\n' {
                break;
            }
            q = q + 1;
        }
        proof {
            assert(forall|j: int| 0 <= j < q - pos ==> suffix[j] != '\n');
            if q < n {
                assert(suffix[q - pos] == '\n');
            }
            lemma_newline_at_pin(suffix, q - pos);
        }
        if q == n {
            // the final line is unterminated
            return None;
        }
        let role = match char_role_of(chars[pos]) {
            Some(role) => role,
            None => {
                proof {
                    assert(suffix[0] == text@[pos as int]);
                }
                return None;
            },
        };
        proof {
            assert(suffix[0] == text@[pos as int]);
        }
        let content_chars = match unescape_range(&chars, pos + 1, q) {
            Some(content) => content,
            None => {
                proof {
                    assert(suffix.subrange(1, q - pos) =~= text@.subrange(pos + 1, q as int));
                }
                return None;
            },
        };
        proof {
            assert(suffix.subrange(1, q - pos) =~= text@.subrange(pos + 1, q as int));
            assert(suffix.skip(q - pos + 1) =~= text@.skip(q + 1));
        }
        let content = string_from_chars(&content_chars);
        let ghost prior = out.deep_view();
        let ghost mv = MessageView { role, content: content_chars@ };
        out.push(Message { role, content });
        proof {
            assert(out.deep_view() =~= prior.push(mv));
            if let Some(tail) = parse_snapshot(text@.skip(q + 1)) {
                assert(prior + (seq![mv] + tail) =~= prior.push(mv) + tail);
            }
        }
        pos = q + 1;
    }
    proof {
        assert(text@.skip(n as int).len() == 0);
        assert(out.deep_view() + Seq::<MessageView>::empty() =~= out.deep_view());
    }
    Some(out)
}

/// The role a letter stands for, if any.
fn char_role_of(c: char) -> (role: Option<Role>)
    ensures
        role == char_role(c),
{
    if c == 's' {
        Some(Role::System)
    } else if c == 'u' {
        Some(Role::User)
    } else if c == 'a' {
        Some(Role::Assistant)
    } else {
        None
    }
}

} // verus!
