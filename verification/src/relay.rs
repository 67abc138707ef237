//! The message relay handler: the per-message data model, the cheap
//! rejection filter applied before any classification work, the
//! selection of gif attachments, and the policy for partially failed
//! downloads.

use vstd::prelude::*;

use crate::classify::attachment_is_gif;
use crate::links::{extract_links, found_links};

verus! {

/// One attachment of an inbound message, as plain values.
pub struct AttachmentInfo {
    /// The attachment's filename.
    pub filename: String,
    /// The declared media type; absent when the platform supplied none.
    pub content_type: Option<String>,
}

/// An immutable snapshot of one inbound message.
pub struct MessageInfo {
    /// The message identifier.
    pub id: u64,
    /// The channel the message was posted in.
    pub channel_id: u64,
    /// The author identifier.
    pub author_id: u64,
    /// Whether the author is an automated account.
    pub author_is_bot: bool,
    /// The raw text body.
    pub content: String,
    /// The ordered attachment list.
    pub attachments: Vec<AttachmentInfo>,
}

/// The relay handler's configuration.
pub struct Handler {
    /// The destination channel for relocated gifs.
    pub dest_channel_id: u64,
    /// The grace delay before relocation begins, in milliseconds.
    pub gif_keep_millis: u64,
    /// The allow-list of known gif-hosting domains, matched
    /// case-insensitively.
    pub gif_domains: Vec<String>,
}

/// Whether the attachment is classified as a gif.
pub open spec fn att_is_gif(a: AttachmentInfo) -> bool {
    attachment_is_gif(a.content_type.deep_view())
}

/// A message is rejected by the cheap filter iff it was posted in the
/// destination channel, or its author is an automated account, or it has
/// neither attachments nor textual links.
pub open spec fn screened_out(h: Handler, msg: MessageInfo) -> bool {
    ||| msg.channel_id == h.dest_channel_id
    ||| msg.author_is_bot
    ||| (msg.attachments@.len() == 0 && found_links(msg.content@).len() == 0)
}

/// A message with no attachments and no textual links is never touched:
/// the cheap filter rejects it before any classification work, so no
/// probe, no fetch and no post is ever requested for it.
pub proof fn lemma_empty_message_untouched(h: Handler, msg: MessageInfo)
    requires
        msg.attachments@.len() == 0,
        found_links(msg.content@).len() == 0,
    ensures
        screened_out(h, msg),
{
}

/// The outcome of the cheap rejection filter.
pub enum ScreenDecision {
    /// The message is not touched: no probe, no fetch, no post.
    Reject,
    /// The message enters classification, with its link candidates in
    /// order of first appearance.
    Classify { candidates: Vec<String> },
}

impl Handler {
    /// The cheap rejection filter. A message in the destination channel
    /// (relocation loop), from an automated account (feedback loop), or
    /// with neither attachments nor textual links is rejected before any
    /// network work; every other message proceeds to classification with
    /// its extracted link candidates.
    pub fn screen(&self, msg: &MessageInfo) -> (d: ScreenDecision)
        ensures
            match d {
                ScreenDecision::Reject => screened_out(*self, *msg),
                ScreenDecision::Classify { candidates } => {
                    &&& !screened_out(*self, *msg)
                    &&& candidates.deep_view() == found_links(msg.content@)
                },
            },
    {
        if msg.channel_id == self.dest_channel_id || msg.author_is_bot {
            return ScreenDecision::Reject;
        }
        let candidates = extract_links(msg.content.as_str());
        if msg.attachments.len() == 0 && candidates.len() == 0 {
            proof {
                assert(candidates.deep_view().len() == candidates@.len());
            }
            return ScreenDecision::Reject;
        }
        proof {
            assert(candidates.deep_view().len() == candidates@.len());
        }
        ScreenDecision::Classify { candidates }
    }
}

/// Selects the attachments classified as gifs: the strictly increasing
/// indices of exactly those attachments whose declared media type is the
/// animated-image type.
pub fn gif_attachment_indices(atts: &Vec<AttachmentInfo>) -> (r: Vec<usize>)
    ensures
        forall|k: int| 0 <= k < r@.len() ==> r@[k] < atts@.len() && att_is_gif(atts@[r@[k] as int]),
        forall|i: int| 0 <= i < atts@.len() && att_is_gif(atts@[i]) ==> r@.contains(i as usize),
        forall|k1: int, k2: int| 0 <= k1 < k2 < r@.len() ==> r@[k1] < r@[k2],
{
    let mut r: Vec<usize> = Vec::new();
    let mut i: usize = 0;
    while i < atts.len()
        invariant
            0 <= i <= atts@.len(),
            forall|k: int|
                0 <= k < r@.len() ==> r@[k] < i && att_is_gif(atts@[r@[k] as int]),
            forall|j: int| 0 <= j < i && att_is_gif(atts@[j]) ==> r@.contains(j as usize),
            forall|k1: int, k2: int| 0 <= k1 < k2 < r@.len() ==> r@[k1] < r@[k2],
        decreases atts@.len() - i,
    {
        let ghost prev = r@;
        if crate::classify::classify_attachment(&atts[i].content_type) {
            r.push(i);
            proof {
                assert(r@[r@.len() - 1] == i as usize);
                assert forall|j: int|
                    0 <= j < i + 1 && att_is_gif(atts@[j]) implies r@.contains(j as usize) by {
                    if j < i {
                        let k = choose|k: int| 0 <= k < prev.len() && prev[k] == j as usize;
                        assert(r@[k] == j as usize);
                    } else {
                        assert(r@[r@.len() - 1] == j as usize);
                    }
                }
            }
        } else {
            proof {
                assert forall|j: int|
                    0 <= j < i + 1 && att_is_gif(atts@[j]) implies r@.contains(j as usize) by {}
            }
        }
        i = i + 1;
    }
    r
}

/// One attachment whose bytes were retrieved.
pub struct FetchedAttachment {
    /// The attachment's filename, carried through for the outgoing post.
    pub filename: String,
    /// The retrieved bytes.
    pub bytes: Vec<u8>,
}

/// The downloads that survive: per-item failures are dropped, order of
/// the successes kept.
pub open spec fn fetched_kept(rs: Seq<Option<FetchedAttachment>>) -> Seq<FetchedAttachment>
    decreases rs.len(),
{
    if rs.len() == 0 {
        Seq::<FetchedAttachment>::empty()
    } else {
        let rest = fetched_kept(rs.skip(1));
        match rs[0] {
            Option::Some(f) => seq![f] + rest,
            Option::None => rest,
        }
    }
}

/// Applies the partial-download policy: a per-attachment failure drops
/// only that attachment from the relocation set; the successes are kept
/// in order, never aggregated into a total failure.
pub fn keep_fetched(results: Vec<Option<FetchedAttachment>>) -> (r: Vec<FetchedAttachment>)
    ensures
        r@ == fetched_kept(results@),
{
    let ghost rv = results@;
    let mut out: Vec<FetchedAttachment> = Vec::new();
    let mut rest = results;
    proof {
        assert(out@ + fetched_kept(rv) =~= fetched_kept(rv));
    }
    while rest.len() > 0
        invariant
            fetched_kept(rv) == out@ + fetched_kept(rest@),
        decreases rest@.len(),
    {
        let ghost before = rest@;
        let ghost prev = out@;
        let item = rest.remove(0);
        proof {
            assert(before.remove(0) =~= before.skip(1));
        }
        match item {
            Option::Some(f) => {
                proof {
                    assert(fetched_kept(before) == seq![f] + fetched_kept(before.skip(1)));
                    assert(prev + (seq![f] + fetched_kept(before.skip(1))) =~= (prev + seq![f])
                        + fetched_kept(before.skip(1)));
                }
                out.push(f);
            },
            Option::None => {},
        }
    }
    proof {
        assert(fetched_kept(rest@) =~= Seq::<FetchedAttachment>::empty());
        assert(out@ + Seq::<FetchedAttachment>::empty() =~= out@);
    }
    out
}

} // verus!
