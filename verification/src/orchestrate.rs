//! The repost orchestrator: the state machine that, for one message with
//! a classified gif set, drives the relocate/notify/backlink/delete
//! sequence. Each step asks the application to perform one platform call
//! and is told how it went; a transport failure aborts the remaining
//! steps for that message only, leaving whatever partial state was
//! already committed.

use vstd::prelude::*;

use crate::relay::{FetchedAttachment, Handler, MessageInfo};
use crate::rewrite::{rewrite, rewrite_spec};
use crate::text::{dec_str, u64_to_dec};

verus! {

/// The states of one relocation, in order of the sequence.
#[derive(Clone, Copy, PartialEq, Eq, Structural, Debug)]
pub enum RelocationState {
    /// The classified set is known; nothing has been done yet.
    Classified,
    /// The pending-relocation reaction has been requested.
    AckReacted,
    /// The grace delay is running.
    AwaitingGrace,
    /// The gif post to the destination channel has been requested.
    Relocating,
    /// The gif message stands; the trace post has been requested.
    GifPosted,
    /// The trace message stands; the backlink edit has been requested.
    TracePosted,
    /// Both messages cross-link; the original's deletion has been
    /// requested.
    Backlinked,
    /// The sequence completed; terminal.
    OriginalDeleted,
    /// A step failed; the remaining steps are abandoned; terminal.
    Aborted,
}

/// The kind of platform call an action asks for.
#[derive(Clone, Copy, PartialEq, Eq, Structural, Debug)]
pub enum ActionKind {
    React,
    Wait,
    PostFiles,
    PostMessage,
    EditMessage,
    DeleteMessage,
    Finish,
}

/// What the application must do next for one relocation.
pub enum Action {
    /// Add `emoji` as a reaction on a message.
    React { channel_id: u64, message_id: u64, emoji: String },
    /// Sleep for `millis` milliseconds.
    Wait { millis: u64 },
    /// Post the relocation's files to `channel_id` with `body` as the
    /// initial text; the files are the orchestrator's `files` list.
    PostFiles { channel_id: u64, body: String },
    /// Post a plain message with `body` to `channel_id`.
    PostMessage { channel_id: u64, body: String },
    /// Edit the message `message_id` in `channel_id` to `body`.
    EditMessage { channel_id: u64, message_id: u64, body: String },
    /// Delete the message `message_id` from `channel_id`.
    DeleteMessage { channel_id: u64, message_id: u64 },
    /// Nothing remains to do for this message.
    Finish,
}

/// What the application reports about the action it performed.
pub enum StepOutcome {
    /// The action succeeded and produced no new message.
    Done,
    /// The action succeeded and created a message, with its identifier
    /// and permalink.
    Posted { message_id: u64, permalink: String },
    /// The action failed with a transport error.
    Failed,
}

/// The kind of an action.
pub open spec fn action_kind(a: Action) -> ActionKind {
    match a {
        Action::React { .. } => ActionKind::React,
        Action::Wait { .. } => ActionKind::Wait,
        Action::PostFiles { .. } => ActionKind::PostFiles,
        Action::PostMessage { .. } => ActionKind::PostMessage,
        Action::EditMessage { .. } => ActionKind::EditMessage,
        Action::DeleteMessage { .. } => ActionKind::DeleteMessage,
        Action::Finish => ActionKind::Finish,
    }
}

/// The state after reporting `ev` in state `st`. A step that cannot
/// advance (a failure, or an outcome of the wrong shape) aborts; the two
/// terminal states absorb every event.
pub open spec fn next_state(st: RelocationState, ev: StepOutcome) -> RelocationState {
    match st {
        RelocationState::Classified => match ev {
            StepOutcome::Done => RelocationState::AckReacted,
            _ => RelocationState::Aborted,
        },
        RelocationState::AckReacted => match ev {
            StepOutcome::Done => RelocationState::AwaitingGrace,
            _ => RelocationState::Aborted,
        },
        RelocationState::AwaitingGrace => match ev {
            StepOutcome::Done => RelocationState::Relocating,
            _ => RelocationState::Aborted,
        },
        RelocationState::Relocating => match ev {
            StepOutcome::Posted { .. } => RelocationState::GifPosted,
            _ => RelocationState::Aborted,
        },
        RelocationState::GifPosted => match ev {
            StepOutcome::Posted { .. } => RelocationState::TracePosted,
            _ => RelocationState::Aborted,
        },
        RelocationState::TracePosted => match ev {
            StepOutcome::Done => RelocationState::Backlinked,
            _ => RelocationState::Aborted,
        },
        RelocationState::Backlinked => match ev {
            StepOutcome::Done => RelocationState::OriginalDeleted,
            _ => RelocationState::Aborted,
        },
        RelocationState::OriginalDeleted => RelocationState::OriginalDeleted,
        RelocationState::Aborted => RelocationState::Aborted,
    }
}

/// The kind of action requested after reporting `ev` in state `st`.
pub open spec fn next_kind(st: RelocationState, ev: StepOutcome) -> ActionKind {
    match next_state(st, ev) {
        RelocationState::AckReacted => ActionKind::React,
        RelocationState::AwaitingGrace => ActionKind::Wait,
        RelocationState::Relocating => ActionKind::PostFiles,
        RelocationState::GifPosted => ActionKind::PostMessage,
        RelocationState::TracePosted => ActionKind::EditMessage,
        RelocationState::Backlinked => ActionKind::DeleteMessage,
        _ => ActionKind::Finish,
    }
}

/// The reaction signalling a pending relocation.
pub open spec fn ack_emoji_spec() -> Seq<char> {
    "\u{23f1}\u{fe0f}"@
}

/// The gif post's initial text: a short banner when link-sourced gifs
/// are present, empty otherwise.
pub open spec fn gif_post_body_spec(has_links: bool) -> Seq<char> {
    if has_links {
        "New gif!"@
    } else {
        Seq::<char>::empty()
    }
}

/// The trace message posted back in the original channel: the leftover
/// text, a back-reference to the gif message, and a mention of the
/// original author.
pub open spec fn trace_body_spec(cleaned: Seq<char>, gif_permalink: Seq<char>, author_id: u64) -> Seq<
    char,
> {
    cleaned + "\nGif(s) rerouted to "@ + gif_permalink + ". Original message sent by <@"@ + dec_str(
        author_id as nat,
    ) + ">"@
}

/// The matched links each preceded by a newline.
pub open spec fn joined_tail_spec(links: Seq<Seq<char>>) -> Seq<char>
    decreases links.len(),
{
    if links.len() == 0 {
        Seq::<char>::empty()
    } else {
        seq!['\n'] + links[0] + joined_tail_spec(links.skip(1))
    }
}

/// The matched links joined by newlines.
pub open spec fn joined_links_spec(links: Seq<Seq<char>>) -> Seq<char> {
    if links.len() == 0 {
        Seq::<char>::empty()
    } else {
        links[0] + joined_tail_spec(links.skip(1))
    }
}

/// The gif message's final text: a forward-reference to the trace
/// message and, for link-sourced gifs, the literal matched URLs.
pub open spec fn backlink_body_spec(trace_permalink: Seq<char>, links: Seq<Seq<char>>) -> Seq<
    char,
> {
    if links.len() > 0 {
        "Gif from: "@ + trace_permalink + seq!['\n'] + joined_links_spec(links)
    } else {
        "Gif from: "@ + trace_permalink
    }
}

/// Composes the trace message body.
pub fn compose_trace_body(cleaned: &str, gif_permalink: &str, author_id: u64) -> (r: String)
    ensures
        r@ == trace_body_spec(cleaned@, gif_permalink@, author_id),
{
    let mut s = cleaned.to_owned();
    s.append("\nGif(s) rerouted to ");
    s.append(gif_permalink);
    s.append(". Original message sent by <@");
    let digits = u64_to_dec(author_id);
    s.append(digits.as_str());
    s.append(">");
    proof {
        assert(s@ =~= trace_body_spec(cleaned@, gif_permalink@, author_id));
    }
    s
}

/// Composes the gif message's final (backlinked) body.
pub fn compose_backlink_body(trace_permalink: &str, links: &Vec<String>) -> (r: String)
    ensures
        r@ == backlink_body_spec(trace_permalink@, links.deep_view()),
{
    let ghost lv = links.deep_view();
    let mut s = "Gif from: ".to_owned();
    s.append(trace_permalink);
    if links.len() == 0 {
        return s;
    }
    proof {
        reveal_strlit("\n");
        assert(lv[0] == links@[0]@);
    }
    s.append("\n");
    s.append(links[0].as_str());
    let ghost base = "Gif from: "@ + trace_permalink@ + seq!['\n'] + lv[0];
    proof {
        assert(s@ =~= base);
        assert(lv.skip(0) =~= lv);
    }
    let mut i: usize = 1;
    while i < links.len()
        invariant
            lv == links.deep_view(),
            lv.len() == links@.len(),
            1 <= i <= links@.len(),
            base == "Gif from: "@ + trace_permalink@ + seq!['\n'] + lv[0],
            s@ + joined_tail_spec(lv.skip(i as int)) == base + joined_tail_spec(lv.skip(1)),
        decreases links@.len() - i,
    {
        proof {
            reveal_strlit("\n");
            assert(lv.skip(i as int)[0] == lv[i as int]);
            assert(lv[i as int] == links@[i as int]@);
            assert(lv.skip(i as int).skip(1) =~= lv.skip(i + 1));
            assert(joined_tail_spec(lv.skip(i as int)) == seq!['\n'] + lv[i as int]
                + joined_tail_spec(lv.skip(i + 1)));
        }
        let ghost before = s@;
        s.append("\n");
        s.append(links[i].as_str());
        proof {
            assert(s@ + joined_tail_spec(lv.skip(i + 1)) =~= before + joined_tail_spec(
                lv.skip(i as int),
            ));
        }
        i = i + 1;
    }
    proof {
        assert(lv.skip(links@.len() as int) =~= Seq::<Seq<char>>::empty());
        assert(s@ =~= base + joined_tail_spec(lv.skip(1)));
        assert(backlink_body_spec(trace_permalink@, lv) =~= base + joined_tail_spec(lv.skip(1)));
    }
    s
}

/// One relocation in progress: the classified content of one source
/// message and how far the sequence has advanced.
pub struct Relocation {
    /// Where the sequence stands.
    pub state: RelocationState,
    /// The destination channel for the gif post.
    pub dest_channel_id: u64,
    /// The channel the original message was posted in.
    pub origin_channel_id: u64,
    /// The original message.
    pub original_message_id: u64,
    /// The original author.
    pub author_id: u64,
    /// The grace delay before relocation, in milliseconds.
    pub grace_millis: u64,
    /// The classified gif links, in order of first appearance.
    pub gif_links: Vec<String>,
    /// The fetched gif attachments that survived download.
    pub files: Vec<FetchedAttachment>,
    /// The trace text: the content with every matched link removed and
    /// whitespace normalized.
    pub cleaned: String,
    /// The gif message's identifier, once it was posted.
    pub gif_message_id: Option<u64>,
}

impl Relocation {
    /// The orchestrator's internal consistency: once the gif message was
    /// posted, its identifier is known (the backlink edit needs it).
    pub open spec fn wf(self) -> bool {
        (self.state == RelocationState::GifPosted || self.state == RelocationState::TracePosted)
            ==> self.gif_message_id is Some
    }

    /// Begins the relocation of one classified message: state
    /// `Classified`, nothing performed yet. The trace text is the
    /// rewritten content: every matched gif link removed and whitespace
    /// normalized (with no matched links, rewriting only normalizes).
    pub fn new(
        handler: &Handler,
        msg: &MessageInfo,
        gif_links: Vec<String>,
        files: Vec<FetchedAttachment>,
    ) -> (r: Relocation)
        ensures
            r.state == RelocationState::Classified,
            r.dest_channel_id == handler.dest_channel_id,
            r.origin_channel_id == msg.channel_id,
            r.original_message_id == msg.id,
            r.author_id == msg.author_id,
            r.grace_millis == handler.gif_keep_millis,
            r.gif_links == gif_links,
            r.files == files,
            r.cleaned@ == rewrite_spec(msg.content@, gif_links.deep_view()),
            r.gif_message_id is None,
            r.wf(),
    {
        let cleaned = rewrite(msg.content.as_str(), &gif_links);
        Relocation {
            state: RelocationState::Classified,
            dest_channel_id: handler.dest_channel_id,
            origin_channel_id: msg.channel_id,
            original_message_id: msg.id,
            author_id: msg.author_id,
            grace_millis: handler.gif_keep_millis,
            gif_links,
            files,
            cleaned,
            gif_message_id: Option::None,
        }
    }

    /// The payloads a step's action must carry, given the state it was
    /// taken in and the outcome it was given.
    pub open spec fn action_payload_ok(pre: Relocation, ev: StepOutcome, a: Action) -> bool {
        match a {
            Action::React { channel_id, message_id, emoji } => {
                &&& channel_id == pre.origin_channel_id
                &&& message_id == pre.original_message_id
                &&& emoji@ == ack_emoji_spec()
            },
            Action::Wait { millis } => millis == pre.grace_millis,
            Action::PostFiles { channel_id, body } => {
                &&& channel_id == pre.dest_channel_id
                &&& body@ == gif_post_body_spec(pre.gif_links@.len() > 0)
            },
            Action::PostMessage { channel_id, body } => {
                &&& channel_id == pre.origin_channel_id
                &&& match ev {
                    StepOutcome::Posted { message_id: _, permalink } => body@ == trace_body_spec(
                        pre.cleaned@,
                        permalink@,
                        pre.author_id,
                    ),
                    _ => false,
                }
            },
            Action::EditMessage { channel_id, message_id, body } => {
                &&& channel_id == pre.dest_channel_id
                &&& pre.gif_message_id == Option::Some(message_id)
                &&& match ev {
                    StepOutcome::Posted { message_id: _, permalink } => body@
                        == backlink_body_spec(permalink@, pre.gif_links.deep_view()),
                    _ => false,
                }
            },
            Action::DeleteMessage { channel_id, message_id } => {
                &&& channel_id == pre.origin_channel_id
                &&& message_id == pre.original_message_id
            },
            Action::Finish => true,
        }
    }

    /// Reports the outcome of the previous action (`StepOutcome::Done`
    /// for the very first call) and obtains the next action. The state
    /// advances by `next_state`; the action's kind is `next_kind` and its
    /// payloads are pinned by `action_payload_ok`; everything else of the
    /// relocation is unchanged, except that the gif message's identifier
    /// is recorded when its posting is reported.
    pub fn step(&mut self, ev: StepOutcome) -> (a: Action)
        requires
            old(self).wf(),
        ensures
            final(self).state == next_state(old(self).state, ev),
            action_kind(a) == next_kind(old(self).state, ev),
            Self::action_payload_ok(*old(self), ev, a),
            final(self).wf(),
            final(self).dest_channel_id == old(self).dest_channel_id,
            final(self).origin_channel_id == old(self).origin_channel_id,
            final(self).original_message_id == old(self).original_message_id,
            final(self).author_id == old(self).author_id,
            final(self).grace_millis == old(self).grace_millis,
            final(self).gif_links == old(self).gif_links,
            final(self).files == old(self).files,
            final(self).cleaned == old(self).cleaned,
            final(self).gif_message_id == (match (old(self).state, ev) {
                (RelocationState::Relocating, StepOutcome::Posted { message_id, .. }) =>
                    Option::Some(message_id),
                _ => old(self).gif_message_id,
            }),
    {
        let st = self.state;
        match st {
            RelocationState::Classified => match ev {
                StepOutcome::Done => {
                    self.state = RelocationState::AckReacted;
                    Action::React {
                        channel_id: self.origin_channel_id,
                        message_id: self.original_message_id,
                        emoji: "\u{23f1}\u{fe0f}".to_owned(),
                    }
                },
                _ => {
                    self.state = RelocationState::Aborted;
                    Action::Finish
                },
            },
            RelocationState::AckReacted => match ev {
                StepOutcome::Done => {
                    self.state = RelocationState::AwaitingGrace;
                    Action::Wait { millis: self.grace_millis }
                },
                _ => {
                    self.state = RelocationState::Aborted;
                    Action::Finish
                },
            },
            RelocationState::AwaitingGrace => match ev {
                StepOutcome::Done => {
                    self.state = RelocationState::Relocating;
                    let body = if self.gif_links.len() > 0 {
                        "New gif!".to_owned()
                    } else {
                        String::new()
                    };
                    Action::PostFiles { channel_id: self.dest_channel_id, body }
                },
                _ => {
                    self.state = RelocationState::Aborted;
                    Action::Finish
                },
            },
            RelocationState::Relocating => match ev {
                StepOutcome::Posted { message_id, permalink } => {
                    self.state = RelocationState::GifPosted;
                    self.gif_message_id = Option::Some(message_id);
                    let body = compose_trace_body(
                        self.cleaned.as_str(),
                        permalink.as_str(),
                        self.author_id,
                    );
                    Action::PostMessage { channel_id: self.origin_channel_id, body }
                },
                _ => {
                    self.state = RelocationState::Aborted;
                    Action::Finish
                },
            },
            RelocationState::GifPosted => match ev {
                StepOutcome::Posted { message_id: _, permalink } => {
                    self.state = RelocationState::TracePosted;
                    let target = match self.gif_message_id {
                        Option::Some(id) => id,
                        Option::None => 0,
                    };
                    let body = compose_backlink_body(permalink.as_str(), &self.gif_links);
                    Action::EditMessage {
                        channel_id: self.dest_channel_id,
                        message_id: target,
                        body,
                    }
                },
                _ => {
                    self.state = RelocationState::Aborted;
                    Action::Finish
                },
            },
            RelocationState::TracePosted => match ev {
                StepOutcome::Done => {
                    self.state = RelocationState::Backlinked;
                    Action::DeleteMessage {
                        channel_id: self.origin_channel_id,
                        message_id: self.original_message_id,
                    }
                },
                _ => {
                    self.state = RelocationState::Aborted;
                    Action::Finish
                },
            },
            RelocationState::Backlinked => match ev {
                StepOutcome::Done => {
                    self.state = RelocationState::OriginalDeleted;
                    Action::Finish
                },
                _ => {
                    self.state = RelocationState::Aborted;
                    Action::Finish
                },
            },
            RelocationState::OriginalDeleted => Action::Finish,
            RelocationState::Aborted => Action::Finish,
        }
    }
}

/// A message with a non-empty classified set yields exactly one gif post;
/// one with an empty classified set yields none: relocation begins iff
/// something was classified.
pub fn should_relocate(n_gif_links: usize, n_gif_attachments: usize) -> (r: bool)
    ensures
        r == (n_gif_links > 0 || n_gif_attachments > 0),
{
    n_gif_links > 0 || n_gif_attachments > 0
}

/// Driven from `Classified` with only successful outcomes, the sequence
/// performs exactly: react, wait, post the gif message, post the trace
/// message, edit the gif message, delete the original — in that order —
/// and terminates with the original deleted.
pub proof fn lemma_relocation_sequence(gif_posted: StepOutcome, trace_posted: StepOutcome)
    requires
        gif_posted is Posted,
        trace_posted is Posted,
    ensures
        next_state(RelocationState::Classified, StepOutcome::Done) == RelocationState::AckReacted,
        next_kind(RelocationState::Classified, StepOutcome::Done) == ActionKind::React,
        next_state(RelocationState::AckReacted, StepOutcome::Done)
            == RelocationState::AwaitingGrace,
        next_kind(RelocationState::AckReacted, StepOutcome::Done) == ActionKind::Wait,
        next_state(RelocationState::AwaitingGrace, StepOutcome::Done)
            == RelocationState::Relocating,
        next_kind(RelocationState::AwaitingGrace, StepOutcome::Done) == ActionKind::PostFiles,
        next_state(RelocationState::Relocating, gif_posted) == RelocationState::GifPosted,
        next_kind(RelocationState::Relocating, gif_posted) == ActionKind::PostMessage,
        next_state(RelocationState::GifPosted, trace_posted) == RelocationState::TracePosted,
        next_kind(RelocationState::GifPosted, trace_posted) == ActionKind::EditMessage,
        next_state(RelocationState::TracePosted, StepOutcome::Done) == RelocationState::Backlinked,
        next_kind(RelocationState::TracePosted, StepOutcome::Done) == ActionKind::DeleteMessage,
        next_state(RelocationState::Backlinked, StepOutcome::Done)
            == RelocationState::OriginalDeleted,
        next_kind(RelocationState::Backlinked, StepOutcome::Done) == ActionKind::Finish,
{
}

/// A failure in any live state abandons the remaining steps: the
/// relocation aborts, and an aborted (or completed) relocation never asks
/// for another platform call.
pub proof fn lemma_failure_abandons(st: RelocationState, ev: StepOutcome)
    ensures
        st != RelocationState::OriginalDeleted ==> next_state(st, StepOutcome::Failed)
            == RelocationState::Aborted,
        next_state(RelocationState::Aborted, ev) == RelocationState::Aborted,
        next_kind(RelocationState::Aborted, ev) == ActionKind::Finish,
        next_kind(RelocationState::OriginalDeleted, ev) == ActionKind::Finish,
{
}

} // verus!
