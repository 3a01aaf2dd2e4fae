//! The session engine's decision logic: routing one line of input, planning
//! a chat turn for the active provider, decoding streamed response chunks
//! into increments, folding the increments of one turn, and applying the
//! turn's outcome to the transcript. The engine's loop itself only performs
//! what these functions decide.

use vstd::prelude::*;

use crate::chatbots::Chatbot;
use crate::session::Session;
use crate::snapshot::{lemma_newline_at_pin, newline_at};
use crate::text::{chars_of, chars_range, is_blank, skip_spaces, split_ws, string_from_chars,
    tokens_of};
use crate::wire::{frame_text, gemini_request, gemini_request_body};
use crate::{chat_error_text, ChatbotChatError, MessageView, Role};
use vstd::string::StrSliceExecFns;

verus! {

/// One unit of a streamed reply: a text fragment, or the typed failure
/// that ended the stream.
#[derive(Debug)]
pub enum StreamIncrement {
    Text(String),
    Failed(ChatbotChatError),
}

/// The mathematical value of a [`StreamIncrement`].
pub enum StreamIncrementView {
    Text(Seq<char>),
    Failed(ChatbotChatError),
}

impl View for StreamIncrement {
    type V = StreamIncrementView;

    open spec fn view(&self) -> StreamIncrementView {
        match self {
            StreamIncrement::Text(text) => StreamIncrementView::Text(text@),
            StreamIncrement::Failed(err) => StreamIncrementView::Failed(*err),
        }
    }
}

impl DeepView for StreamIncrement {
    type V = StreamIncrementView;

    open spec fn deep_view(&self) -> StreamIncrementView {
        self.view()
    }
}

/// The increments carried by every complete, non-blank line of `s`: the
/// fragment a line's frame holds, or the unexpected-response failure where
/// the frame cannot be read.
pub open spec fn decode_lines(s: Seq<char>) -> Seq<StreamIncrementView>
    decreases s.len(),
{
    let j = newline_at(s, 0);
    if !(0 <= j < s.len()) {
        Seq::empty()
    } else {
        let line = s.subrange(0, j);
        let rest = decode_lines(s.skip(j + 1));
        if skip_spaces(line, 0) == line.len() {
            rest
        } else {
            let inc = match frame_text(line) {
                Some(text) => StreamIncrementView::Text(text),
                None => StreamIncrementView::Failed(ChatbotChatError::UnexpectedResponse),
            };
            seq![inc] + rest
        }
    }
}

/// The unterminated tail of `s` after its last complete line.
pub open spec fn line_remainder(s: Seq<char>) -> Seq<char>
    decreases s.len(),
{
    let j = newline_at(s, 0);
    if !(0 <= j < s.len()) {
        s
    } else {
        line_remainder(s.skip(j + 1))
    }
}

/// Decodes a streamed response as its chunks arrive: complete lines become
/// increments at once, and a line still missing its newline waits in the
/// buffer for the next chunk. A fresh decoder is made for every request;
/// it cannot be rewound.
#[derive(Debug)]
pub struct StreamDecoder {
    pub buffer: Vec<char>,
}

impl StreamDecoder {
    /// The received text still waiting for its terminating newline.
    pub open spec fn pending(&self) -> Seq<char> {
        self.buffer@
    }

    /// A decoder with nothing received yet.
    pub fn new() -> (decoder: Self)
        ensures
            decoder.pending() == Seq::<char>::empty(),
    {
        let decoder = Self { buffer: Vec::new() };
        proof {
            assert(decoder.pending() =~= Seq::<char>::empty());
        }
        decoder
    }

    /// Feeds one received chunk and returns the increments of every line
    /// completed by it, in arrival order.
    #[verifier::rlimit(60)]
    pub fn push_chunk(&mut self, chunk: &str) -> (increments: Vec<StreamIncrement>)
        ensures
            ({
                let total = old(self).pending() + chunk@;
                &&& increments.deep_view() == decode_lines(total)
                &&& final(self).pending() == line_remainder(total)
            }),
    {
        let mut chunk_chars = chars_of(chunk);
        self.buffer.append(&mut chunk_chars);
        let ghost total = self.buffer@;
        let n = self.buffer.len();
        let mut increments: Vec<StreamIncrement> = Vec::new();
        let mut pos: usize = 0;
        proof {
            assert(total.skip(0) =~= total);
            assert(increments.deep_view() + decode_lines(total) =~= decode_lines(total));
        }
        while pos < n
            invariant
                pos <= n,
                n == self.buffer@.len(),
                total == self.buffer@,
                increments.deep_view() + decode_lines(total.skip(pos as int)) == decode_lines(
                    total,
                ),
                line_remainder(total.skip(pos as int)) == line_remainder(total),
            ensures
                pos <= n,
                n == self.buffer@.len(),
                total == self.buffer@,
                increments.deep_view() + decode_lines(total.skip(pos as int)) == decode_lines(
                    total,
                ),
                line_remainder(total.skip(pos as int)) == line_remainder(total),
                forall|j: int| pos <= j < n ==> total[j] != '\n',
            decreases n - pos,
        {
            let ghost suffix = total.skip(pos as int);
            let mut q: usize = pos;
            while q < n
                invariant
                    pos <= q <= n,
                    n == self.buffer@.len(),
                    total == self.buffer@,
                    forall|j: int| pos <= j < q ==> total[j] != '\n',
                ensures
                    pos <= q <= n,
                    forall|j: int| pos <= j < q ==> total[j] != '\n',
                    q < n ==> total[q as int] == '\n',
                decreases n - q,
            {
                if self.buffer[q] == '\n' {
                    break ;
                }
                q = q + 1;
            }
            proof {
                assert(forall|j: int| 0 <= j < q - pos ==> suffix[j] != '\n');
                if q < n {
                    assert(suffix[q - pos] == '\n');
                }
                lemma_newline_at_pin(suffix, q - pos);
            }
            if q == n {
                break ;
            }
            let line_chars = chars_range(&self.buffer, pos, q);
            proof {
                assert(line_chars@ =~= suffix.subrange(0, q - pos));
                assert(suffix.skip(q - pos + 1) =~= total.skip(q + 1));
            }
            let line = string_from_chars(&line_chars);
            if !is_blank(line.as_str()) {
                let ghost prior = increments.deep_view();
                let increment = match crate::wire::decode_frame(line.as_str()) {
                    Ok(text) => StreamIncrement::Text(text),
                    Err(err) => {
                        proof {
                            assert(err == ChatbotChatError::UnexpectedResponse);
                        }
                        StreamIncrement::Failed(err)
                    },
                };
                let ghost inc_view = increment@;
                increments.push(increment);
                proof {
                    assert(increments.deep_view() =~= prior.push(inc_view));
                    assert(prior.push(inc_view) + decode_lines(total.skip(q + 1)) =~= prior + (seq![
                        inc_view,
                    ] + decode_lines(total.skip(q + 1))));
                }
            }
            pos = q + 1;
        }
        proof {
            let suffix = total.skip(pos as int);
            assert(newline_at(suffix, 0) == suffix.len()) by {
                lemma_newline_at_pin(suffix, suffix.len() as int);
            }
            assert(decode_lines(suffix) =~= Seq::<StreamIncrementView>::empty());
            assert(increments.deep_view() + decode_lines(suffix) =~= increments.deep_view());
        }
        let rest = chars_range(&self.buffer, pos, n);
        proof {
            assert(rest@ =~= total.skip(pos as int));
        }
        self.buffer = rest;
        increments
    }
}

/// The fragments seen, and the failure met, after folding a sequence of
/// increments in order: fragments stop counting at the first failure.
pub open spec fn turn_fold(incs: Seq<StreamIncrementView>) -> (Seq<Seq<char>>, Option<
    ChatbotChatError,
>)
    decreases incs.len(),
{
    if incs.len() == 0 {
        (Seq::empty(), None)
    } else {
        let prev = turn_fold(incs.drop_last());
        if prev.1 is Some {
            prev
        } else {
            match incs.last() {
                StreamIncrementView::Text(text) => (prev.0.push(text), None),
                StreamIncrementView::Failed(err) => (prev.0, Some(err)),
            }
        }
    }
}

/// The increment sequence of a stream that only yields text fragments.
pub open spec fn as_text_increments(texts: Seq<Seq<char>>) -> Seq<StreamIncrementView> {
    texts.map_values(|text: Seq<char>| StreamIncrementView::Text(text))
}

/// Folding a stream of text fragments alone sees every fragment, in order,
/// and meets no failure.
pub proof fn lemma_fold_all_text(texts: Seq<Seq<char>>)
    ensures
        turn_fold(as_text_increments(texts)) == (texts, None::<ChatbotChatError>),
    decreases texts.len(),
{
    let incs = as_text_increments(texts);
    if texts.len() == 0 {
        assert(turn_fold(incs) == (Seq::<Seq<char>>::empty(), None::<ChatbotChatError>));
        assert(texts =~= Seq::<Seq<char>>::empty());
    } else {
        assert(incs.drop_last() =~= as_text_increments(texts.drop_last()));
        lemma_fold_all_text(texts.drop_last());
        assert(incs.last() == StreamIncrementView::Text(texts.last()));
        assert(texts.drop_last().push(texts.last()) =~= texts);
    }
}

/// A stream that yields some text fragments and then a transport failure:
/// the fold sees every one of the fragments, in order, and ends with that
/// failure, so the turn appends no assistant message and the failure is
/// reported.
pub proof fn lemma_error_after_fragments(texts: Seq<Seq<char>>, err: ChatbotChatError)
    ensures
        turn_fold(as_text_increments(texts).push(StreamIncrementView::Failed(err))) == (
        texts,
        Some(err),
        ),
{
    let incs = as_text_increments(texts).push(StreamIncrementView::Failed(err));
    assert(incs.drop_last() =~= as_text_increments(texts));
    lemma_fold_all_text(texts);
    assert(incs.last() == StreamIncrementView::Failed(err));
}

/// One chat turn being drained: the fragments seen so far, and the failure
/// that ended the stream, if one has.
#[derive(Debug)]
pub struct ChatTurn {
    pub fragments: Vec<String>,
    pub failure: Option<ChatbotChatError>,
}

impl ChatTurn {
    /// The fragments seen so far, in arrival order.
    pub open spec fn seen(&self) -> Seq<Seq<char>> {
        self.fragments.deep_view()
    }

    /// A turn with nothing received yet.
    pub fn new() -> (turn: Self)
        ensures
            turn.seen() == Seq::<Seq<char>>::empty(),
            turn.failure is None,
    {
        let turn = Self { fragments: Vec::new(), failure: None };
        proof {
            assert(turn.seen() =~= Seq::<Seq<char>>::empty());
        }
        turn
    }

    /// Takes one increment: a fragment is kept in order, a failure ends the
    /// stream, and nothing after a failure changes the turn. This is one
    /// step of [`turn_fold`].
    pub fn on_increment(&mut self, increment: StreamIncrement)
        ensures
            old(self).failure is Some ==> *final(self) == *old(self),
            old(self).failure is None ==> match increment@ {
                StreamIncrementView::Text(text) => final(self).seen() == old(self).seen().push(
                    text,
                ) && final(self).failure is None,
                StreamIncrementView::Failed(err) => final(self).seen() == old(self).seen()
                    && final(self).failure == Some(err),
            },
    {
        if self.failure.is_some() {
            return ;
        }
        match increment {
            StreamIncrement::Text(text) => {
                let ghost prior = self.fragments.deep_view();
                let ghost text_view = text@;
                self.fragments.push(text);
                proof {
                    assert(self.fragments.deep_view() =~= prior.push(text_view));
                }
            },
            StreamIncrement::Failed(err) => {
                self.failure = Some(err);
            },
        }
    }

    /// The assembled reply of the whole text, or the failure that ended the
    /// stream.
    pub fn outcome(self) -> (result: Result<String, ChatbotChatError>)
        ensures
            match self.failure {
                Some(err) => result matches Err(e) && e == err,
                None => result matches Ok(text) && text@ == concat_fragments(self.seen()),
            },
    {
        let ghost parts = self.fragments.deep_view();
        match self.failure {
            Some(err) => Err(err),
            None => {
                let n = self.fragments.len();
                let mut assembled = String::new();
                let mut i: usize = 0;
                proof {
                    assert(parts.take(0) =~= Seq::<Seq<char>>::empty());
                }
                while i < n
                    invariant
                        i <= n,
                        n == self.fragments@.len(),
                        parts == self.fragments.deep_view(),
                        parts.len() == n,
                        assembled@ == concat_fragments(parts.take(i as int)),
                    decreases n - i,
                {
                    assembled.append(self.fragments[i].as_str());
                    proof {
                        assert(parts.take(i + 1).drop_last() =~= parts.take(i as int));
                        assert(parts.take(i + 1).last() == parts[i as int]);
                    }
                    i = i + 1;
                }
                proof {
                    assert(parts.take(n as int) =~= parts);
                }
                Ok(assembled)
            },
        }
    }
}

/// The concatenation of a turn's fragments, in order.
pub open spec fn concat_fragments(parts: Seq<Seq<char>>) -> Seq<char>
    decreases parts.len(),
{
    if parts.len() == 0 {
        Seq::empty()
    } else {
        concat_fragments(parts.drop_last()) + parts.last()
    }
}

/// Applies a finished turn to the transcript: an assembled reply becomes
/// the new assistant message; a failure leaves the transcript exactly as
/// it was (the partial reply is discarded) and yields the text to report.
pub fn finish_turn(session: &mut Session, outcome: Result<String, ChatbotChatError>) -> (report:
    Option<String>)
    ensures
        outcome matches Ok(text) ==> final(session).messages.deep_view() == old(
            session,
        ).messages.deep_view().push(MessageView { role: Role::Assistant, content: text@ })
            && report is None,
        outcome matches Err(err) ==> final(session).messages == old(session).messages && (
        report matches Some(msg) && msg@ == chat_error_text(err)),
{
    match outcome {
        Ok(text) => {
            session.add_message(Role::Assistant, text);
            None
        },
        Err(err) => Some(err.message()),
    }
}

/// What one chat turn asks of the outside: a reply already computed by a
/// local provider, or a request to send to a remote endpoint, whose framed
/// response is then fed through a [`StreamDecoder`].
#[derive(Debug)]
pub enum TurnPlan {
    Local(String),
    Remote { url: String, body: String },
}

/// Plans the chat turn for the active provider on the full transcript: the
/// local provider's reply is computed at once; for the remote provider the
/// precomputed endpoint and the request body for the transcript are handed
/// out.
pub fn plan_turn(chatbot: &Chatbot, session: &Session) -> (plan: TurnPlan)
    ensures
        match chatbot {
            Chatbot::Dummy(_) => plan matches TurnPlan::Local(reply) && reply@
                == crate::chatbots::dummy::dummy_response(session.messages.deep_view()),
            Chatbot::Gemini(bot) => plan matches TurnPlan::Remote { url, body } && url@ == bot.url@
                && body@ == gemini_request(session.messages.deep_view()),
        },
{
    match chatbot {
        Chatbot::Dummy(bot) => match bot.send_message(&session.messages) {
            Ok(reply) => TurnPlan::Local(reply),
            // the local provider's reply never fails; this arm is unreachable
            Err(_) => TurnPlan::Local(String::new()),
        },
        Chatbot::Gemini(bot) => TurnPlan::Remote {
            url: bot.url.clone(),
            body: gemini_request_body(&session.messages),
        },
    }
}

/// Where one line of input goes: blank lines are ignored, lines opening
/// with the command sigil go to the command interpreter as their
/// whitespace-separated tokens, and everything else is said to the
/// provider.
#[derive(Debug)]
pub enum LineAction {
    Ignore,
    Command(Vec<String>),
    Chat(String),
}

/// Routes one line of input.
pub fn dispatch_line(line: &str) -> (action: LineAction)
    ensures
        skip_spaces(line@, 0) == line@.len() ==> action is Ignore,
        skip_spaces(line@, 0) != line@.len() && line@[0] == '/' ==> (action matches
            LineAction::Command(parts) && parts.deep_view() == split_ws(line@)),
        skip_spaces(line@, 0) != line@.len() && line@[0] != '/' ==> (action matches
            LineAction::Chat(text) && text@ == line@),
{
    if is_blank(line) {
        LineAction::Ignore
    } else if line.get_char(0) == '/' {
        LineAction::Command(tokens_of(line))
    } else {
        LineAction::Chat(String::from_str(line))
    }
}

} // verus!
