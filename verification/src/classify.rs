//! The gif classifier: decides, for a URL or an attachment descriptor,
//! whether it denotes an animated image.
//!
//! For an attachment the declared media type must equal the canonical
//! animated-image type exactly; an absent type is conservatively not a gif.
//! For a link, a layered policy short-circuits on the first success:
//! domain allow-list, then extension fast path, then a remote
//! content-type probe whose raw reply is parsed here. A probe that fails
//! is never a gif.

use vstd::prelude::*;

use crate::text::{
    contains_folded, contains_folded_both, contains_seq, ends_with, ends_with_folded,
    lemma_split_at, lower_seq, split_head, split_tail, starts_with, starts_with_folded, str_eq,
};

verus! {

/// The canonical animated-image media type.
pub open spec fn gif_media_type() -> Seq<char> {
    "image/gif"@
}

/// An attachment is a gif iff its declared media type equals the
/// canonical animated-image type exactly; an absent type is not a gif.
pub open spec fn attachment_is_gif(content_type: Option<Seq<char>>) -> bool {
    match content_type {
        Option::Some(t) => t == gif_media_type(),
        Option::None => false,
    }
}

/// Classifies one attachment by its declared media type.
pub fn classify_attachment(content_type: &Option<String>) -> (r: bool)
    ensures
        r == attachment_is_gif(content_type.deep_view()),
{
    match content_type {
        Option::Some(t) => str_eq(t.as_str(), "image/gif"),
        Option::None => false,
    }
}

/// The allow-list decision: the URL holds one of the configured
/// gif-hosting domains as a substring, compared case-insensitively.
pub open spec fn link_allow_listed(url: Seq<char>, domains: Seq<Seq<char>>) -> bool {
    exists|i: int| 0 <= i < domains.len() && contains_seq(lower_seq(url), lower_seq(domains[i]))
}

/// The extension fast path: the lower-cased URL ends in ".gif".
pub open spec fn link_has_gif_extension(url: Seq<char>) -> bool {
    ends_with(lower_seq(url), ".gif"@)
}

/// A link is classified without any probe iff the allow-list or the
/// extension fast path decides it.
pub open spec fn link_locally_gif(url: Seq<char>, domains: Seq<Seq<char>>) -> bool {
    link_allow_listed(url, domains) || link_has_gif_extension(url)
}

/// A link reaches the expensive probe path iff no local rule decided it.
pub open spec fn link_needs_probe(url: Seq<char>, domains: Seq<Seq<char>>) -> bool {
    !link_locally_gif(url, domains)
}

/// Local (probe-free) classification of one link.
pub fn classify_link_local(url: &str, domains: &Vec<String>) -> (r: bool)
    ensures
        r == link_locally_gif(url@, domains.deep_view()),
{
    let ghost dv = domains.deep_view();
    let mut i: usize = 0;
    while i < domains.len()
        invariant
            dv == domains.deep_view(),
            dv.len() == domains@.len(),
            0 <= i <= domains@.len(),
            forall|k: int| 0 <= k < i ==> !contains_seq(lower_seq(url@), lower_seq(dv[k])),
        decreases domains@.len() - i,
    {
        proof {
            assert(dv[i as int] == domains@[i as int]@);
        }
        if contains_folded_both(url, domains[i].as_str()) {
            proof {
                assert(contains_seq(lower_seq(url@), lower_seq(dv[i as int])));
            }
            return true;
        }
        i = i + 1;
    }
    ends_with_folded(url, ".gif")
}

/// The first line of `s` whose case-folded text begins "content-type",
/// scanning line by line.
pub open spec fn first_content_type_line(s: Seq<char>) -> Option<Seq<char>>
    decreases s.len(),
{
    if s.len() == 0 {
        Option::None
    } else {
        let line = split_head(s, '\n');
        let rest = split_tail(s, '\n');
        if starts_with(lower_seq(line), "content-type"@) {
            Option::Some(line)
        } else if rest.len() < s.len() {
            first_content_type_line(rest)
        } else {
            Option::None
        }
    }
}

/// What parsing a raw probe reply decides: the first header line whose
/// case-folded text begins "content-type" must mention the animated-image
/// type; a reply without such a line is not a gif.
pub open spec fn probe_reply_is_gif(raw: Seq<char>) -> bool {
    match first_content_type_line(raw) {
        Option::Some(l) => contains_seq(lower_seq(l), gif_media_type()),
        Option::None => false,
    }
}

/// Parses a raw probe reply: `r == probe_reply_is_gif(raw@)`.
pub fn probe_reply_indicates_gif(raw: &str) -> (r: bool)
    ensures
        r == probe_reply_is_gif(raw@),
{
    let n = raw.unicode_len();
    let mut i: usize = 0;
    proof {
        assert(raw@.skip(0) =~= raw@);
    }
    while i < n
        invariant
            n == raw@.len(),
            0 <= i <= n,
            probe_reply_is_gif(raw@) == (match first_content_type_line(raw@.skip(i as int)) {
                Option::Some(l) => contains_seq(lower_seq(l), gif_media_type()),
                Option::None => false,
            }),
        decreases n - i,
    {
        let mut k: usize = i;
        while k < n && raw.get_char(k) != '\n'
            invariant
                n == raw@.len(),
                i <= k <= n,
                forall|j: int| i <= j < k ==> raw@[j] != '\n',
            decreases n - k,
        {
            k = k + 1;
        }
        let line = raw.substring_char(i, k);
        proof {
            let suf = raw@.skip(i as int);
            assert forall|j: int| 0 <= j < k - i implies suf[j] != '\n' by {
                assert(raw@[i + j] != '\n');
            }
            if k < n {
                assert(suf[k - i] == raw@[k as int]);
            }
            lemma_split_at(suf, '\n', k - i);
            assert(suf.take(k - i) =~= raw@.subrange(i as int, k as int));
            assert(line@ == split_head(suf, '\n'));
        }
        if starts_with_folded(line, "content-type") {
            return contains_folded(line, "image/gif");
        }
        proof {
            let suf = raw@.skip(i as int);
            assert(suf.len() == n - i);
            assert(line@ == split_head(suf, '\n'));
            assert(!starts_with(lower_seq(split_head(suf, '\n')), "content-type"@));
            if k < n {
                assert(suf.skip(k - i + 1) =~= raw@.skip(k + 1));
            } else {
                let rest = split_tail(suf, '\n');
                assert(rest =~= Seq::<char>::empty());
                assert(rest.len() < suf.len());
                assert(first_content_type_line(suf) == first_content_type_line(rest));
                assert(first_content_type_line(rest) is None);
            }
        }
        if k == n {
            return false;
        }
        i = k + 1;
    }
    proof {
        assert(raw@.skip(n as int) =~= Seq::<char>::empty());
    }
    false
}

/// The observed outcome of one remote content-type probe.
pub enum ProbeOutcome {
    /// The probe answered; the raw header text of the reply.
    Reply(String),
    /// The probe failed, timed out, or produced no usable reply.
    Failed,
}

/// Probe-based classification: a failed probe is never a gif; a reply is
/// a gif iff its first content-type header denotes the animated-image
/// type.
pub open spec fn probe_outcome_is_gif(o: ProbeOutcome) -> bool {
    match o {
        ProbeOutcome::Reply(raw) => probe_reply_is_gif(raw@),
        ProbeOutcome::Failed => false,
    }
}

/// Classifies one probe outcome. A failure (unreachable host, timeout,
/// absent header) is never treated as a gif and never surfaced as an
/// error.
pub fn classify_probe_outcome(o: &ProbeOutcome) -> (r: bool)
    ensures
        r == probe_outcome_is_gif(*o),
{
    match o {
        ProbeOutcome::Reply(raw) => probe_reply_indicates_gif(raw.as_str()),
        ProbeOutcome::Failed => false,
    }
}

/// The sublist of `urls` that no local rule decides, in order: exactly
/// the links for which a probe is issued.
pub open spec fn probe_targets_spec(urls: Seq<Seq<char>>, domains: Seq<Seq<char>>) -> Seq<
    Seq<char>,
>
    decreases urls.len(),
{
    if urls.len() == 0 {
        Seq::<Seq<char>>::empty()
    } else {
        let rest = probe_targets_spec(urls.skip(1), domains);
        if link_needs_probe(urls[0], domains) {
            seq![urls[0]] + rest
        } else {
            rest
        }
    }
}

/// The classified gif links, in order of first appearance: a link decided
/// locally is kept; a link that needed a probe is kept iff its probe (the
/// next unconsumed entry of `probes`) said gif.
pub open spec fn gif_links_spec(
    urls: Seq<Seq<char>>,
    domains: Seq<Seq<char>>,
    probes: Seq<bool>,
) -> Seq<Seq<char>>
    decreases urls.len(),
{
    if urls.len() == 0 {
        Seq::<Seq<char>>::empty()
    } else if link_locally_gif(urls[0], domains) {
        seq![urls[0]] + gif_links_spec(urls.skip(1), domains, probes)
    } else {
        let rest = gif_links_spec(urls.skip(1), domains, probes.skip(1));
        if probes.len() > 0 && probes[0] {
            seq![urls[0]] + rest
        } else {
            rest
        }
    }
}

/// Computes the probe plan for a list of link candidates.
pub fn probe_targets(urls: &Vec<String>, domains: &Vec<String>) -> (r: Vec<String>)
    ensures
        r.deep_view() == probe_targets_spec(urls.deep_view(), domains.deep_view()),
{
    let ghost uv = urls.deep_view();
    let ghost dv = domains.deep_view();
    let mut out: Vec<String> = Vec::new();
    let mut i: usize = 0;
    proof {
        assert(uv.skip(0) =~= uv);
        assert(out.deep_view() + probe_targets_spec(uv, dv) =~= probe_targets_spec(uv, dv));
    }
    while i < urls.len()
        invariant
            uv == urls.deep_view(),
            dv == domains.deep_view(),
            uv.len() == urls@.len(),
            0 <= i <= urls@.len(),
            probe_targets_spec(uv, dv) == out.deep_view() + probe_targets_spec(
                uv.skip(i as int),
                dv,
            ),
        decreases urls@.len() - i,
    {
        proof {
            assert(uv.skip(i as int)[0] == uv[i as int]);
            assert(uv[i as int] == urls@[i as int]@);
            assert(uv.skip(i as int).skip(1) =~= uv.skip(i + 1));
        }
        let ghost prev = out.deep_view();
        if !classify_link_local(urls[i].as_str(), domains) {
            let u = urls[i].clone();
            proof {
                assert(u@ == urls@[i as int]@);
            }
            out.push(u);
            proof {
                assert(out.deep_view() =~= prev + seq![uv[i as int]]);
                assert((prev + seq![uv[i as int]]) + probe_targets_spec(uv.skip(i + 1), dv)
                    =~= prev + (seq![uv[i as int]] + probe_targets_spec(uv.skip(i + 1), dv)));
            }
        }
        i = i + 1;
    }
    proof {
        assert(uv.skip(urls@.len() as int) =~= Seq::<Seq<char>>::empty());
        assert(out.deep_view() + Seq::<Seq<char>>::empty() =~= out.deep_view());
    }
    out
}

/// The probe verdicts, in plan order, read off a list of raw outcomes.
pub open spec fn probe_verdicts(probes: Seq<ProbeOutcome>) -> Seq<bool> {
    probes.map_values(|o: ProbeOutcome| probe_outcome_is_gif(o))
}

/// Completes link classification once every planned probe has an outcome.
/// `probes` must hold one outcome per planned probe, in plan order.
pub fn classified_gif_links(
    urls: &Vec<String>,
    domains: &Vec<String>,
    probes: &Vec<ProbeOutcome>,
) -> (r: Vec<String>)
    requires
        probes@.len() == probe_targets_spec(urls.deep_view(), domains.deep_view()).len(),
    ensures
        r.deep_view() == gif_links_spec(
            urls.deep_view(),
            domains.deep_view(),
            probe_verdicts(probes@),
        ),
{
    let ghost uv = urls.deep_view();
    let ghost dv = domains.deep_view();
    let ghost all = probe_verdicts(probes@);
    let mut out: Vec<String> = Vec::new();
    let mut i: usize = 0;
    let mut next_probe: usize = 0;
    let pm = probes.len();
    proof {
        assert(uv.skip(0) =~= uv);
        assert(all.skip(0) =~= all);
        assert(out.deep_view() + gif_links_spec(uv, dv, all) =~= gif_links_spec(uv, dv, all));
    }
    while i < urls.len()
        invariant
            pm == probes@.len(),
            uv == urls.deep_view(),
            dv == domains.deep_view(),
            all == probe_verdicts(probes@),
            uv.len() == urls@.len(),
            all.len() == probes@.len(),
            0 <= i <= urls@.len(),
            0 <= next_probe <= probes@.len(),
            probe_targets_spec(uv.skip(i as int), dv).len() == probes@.len() - next_probe,
            gif_links_spec(uv, dv, all) == out.deep_view() + gif_links_spec(
                uv.skip(i as int),
                dv,
                all.skip(next_probe as int),
            ),
        decreases urls@.len() - i,
    {
        proof {
            assert(uv.skip(i as int)[0] == uv[i as int]);
            assert(uv[i as int] == urls@[i as int]@);
            assert(uv.skip(i as int).skip(1) =~= uv.skip(i + 1));
        }
        let ghost prev = out.deep_view();
        let locally = classify_link_local(urls[i].as_str(), domains);
        let keep: bool;
        if locally {
            keep = true;
        } else {
            proof {
                assert(link_needs_probe(uv.skip(i as int)[0], dv));
                assert(probe_targets_spec(uv.skip(i as int), dv) == seq![uv[i as int]]
                    + probe_targets_spec(uv.skip(i + 1), dv));
                assert(next_probe < probes@.len());
                assert(all.skip(next_probe as int)[0] == all[next_probe as int]);
                assert(all[next_probe as int] == probe_outcome_is_gif(probes@[next_probe as int]));
                assert(all.skip(next_probe as int).skip(1) =~= all.skip(next_probe + 1));
            }
            keep = classify_probe_outcome(&probes[next_probe]);
            next_probe = next_probe + 1;
        }
        if keep {
            let u = urls[i].clone();
            proof {
                assert(u@ == urls@[i as int]@);
            }
            out.push(u);
            proof {
                assert(out.deep_view() =~= prev + seq![uv[i as int]]);
            }
        }
        proof {
            let tail_probes = if locally {
                all.skip(next_probe as int)
            } else {
                all.skip(next_probe as int)
            };
            assert(prev + (seq![uv[i as int]] + gif_links_spec(uv.skip(i + 1), dv, tail_probes))
                =~= (prev + seq![uv[i as int]]) + gif_links_spec(uv.skip(i + 1), dv, tail_probes));
        }
        i = i + 1;
    }
    proof {
        assert(uv.skip(urls@.len() as int) =~= Seq::<Seq<char>>::empty());
        assert(out.deep_view() + Seq::<Seq<char>>::empty() =~= out.deep_view());
    }
    out
}

/// Every link in the probe plan is one that no local rule decided: a link
/// with the animated-image extension, or with an allow-listed domain, is
/// never probed.
pub proof fn lemma_probe_targets_need_probe(urls: Seq<Seq<char>>, domains: Seq<Seq<char>>)
    ensures
        forall|i: int|
            0 <= i < probe_targets_spec(urls, domains).len() ==> link_needs_probe(
                probe_targets_spec(urls, domains)[i],
                domains,
            ),
    decreases urls.len(),
{
    if urls.len() == 0 {
    } else {
        lemma_probe_targets_need_probe(urls.skip(1), domains);
        let t = probe_targets_spec(urls, domains);
        let t1 = probe_targets_spec(urls.skip(1), domains);
        assert forall|i: int| 0 <= i < t.len() implies link_needs_probe(t[i], domains) by {
            if link_needs_probe(urls[0], domains) {
                if i >= 1 {
                    assert(t[i] == t1[i - 1]);
                }
            } else {
                assert(t[i] == t1[i]);
            }
        }
    }
}

/// A locally-decided gif link is always in the classified set, whatever
/// any probe answered: classification is true for a link ending in the
/// animated-image extension or hosted on an allow-listed domain.
pub proof fn lemma_local_gif_always_classified(
    urls: Seq<Seq<char>>,
    domains: Seq<Seq<char>>,
    probes: Seq<bool>,
    i: int,
)
    requires
        0 <= i < urls.len(),
        link_locally_gif(urls[i], domains),
    ensures
        gif_links_spec(urls, domains, probes).contains(urls[i]),
    decreases urls.len(),
{
    if i == 0 {
        assert(gif_links_spec(urls, domains, probes)[0] == urls[0]);
    } else {
        assert(urls.skip(1)[i - 1] == urls[i]);
        if link_locally_gif(urls[0], domains) {
            lemma_local_gif_always_classified(urls.skip(1), domains, probes, i - 1);
            let rest = gif_links_spec(urls.skip(1), domains, probes);
            let j = choose|j: int| 0 <= j < rest.len() && rest[j] == urls[i];
            assert(gif_links_spec(urls, domains, probes)[j + 1] == urls[i]);
        } else {
            lemma_local_gif_always_classified(urls.skip(1), domains, probes.skip(1), i - 1);
            let rest = gif_links_spec(urls.skip(1), domains, probes.skip(1));
            let j = choose|j: int| 0 <= j < rest.len() && rest[j] == urls[i];
            if probes.len() > 0 && probes[0] {
                assert(gif_links_spec(urls, domains, probes)[j + 1] == urls[i]);
            } else {
                assert(gif_links_spec(urls, domains, probes)[j] == urls[i]);
            }
        }
    }
}

/// A link ending in the animated-image extension is classified as a gif
/// and no probe is ever issued for it.
pub proof fn lemma_gif_extension_never_probed(
    urls: Seq<Seq<char>>,
    domains: Seq<Seq<char>>,
    probes: Seq<bool>,
    i: int,
)
    requires
        0 <= i < urls.len(),
        link_has_gif_extension(urls[i]),
    ensures
        gif_links_spec(urls, domains, probes).contains(urls[i]),
        !probe_targets_spec(urls, domains).contains(urls[i]),
{
    lemma_local_gif_always_classified(urls, domains, probes, i);
    lemma_probe_targets_need_probe(urls, domains);
    let t = probe_targets_spec(urls, domains);
    if t.contains(urls[i]) {
        let j = choose|j: int| 0 <= j < t.len() && t[j] == urls[i];
        assert(link_needs_probe(t[j], domains));
    }
}

/// A link whose host holds an allow-listed domain substring is classified
/// as a gif and no probe is ever issued for it.
pub proof fn lemma_allow_listed_never_probed(
    urls: Seq<Seq<char>>,
    domains: Seq<Seq<char>>,
    probes: Seq<bool>,
    i: int,
)
    requires
        0 <= i < urls.len(),
        link_allow_listed(urls[i], domains),
    ensures
        gif_links_spec(urls, domains, probes).contains(urls[i]),
        !probe_targets_spec(urls, domains).contains(urls[i]),
{
    lemma_local_gif_always_classified(urls, domains, probes, i);
    lemma_probe_targets_need_probe(urls, domains);
    let t = probe_targets_spec(urls, domains);
    if t.contains(urls[i]) {
        let j = choose|j: int| 0 <= j < t.len() && t[j] == urls[i];
        assert(link_needs_probe(t[j], domains));
    }
}

} // verus!
