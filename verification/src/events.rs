use vstd::prelude::*;

use crate::media::CodecKind;

verus! {

// ---------------------------------------------------------------------------
// Events.
//
// The transport engine emits events; the driver translates each into one
// session event for the caller. The delivered Connected / Disconnected /
// media-ingress events form the session's history, over which the ordering
// guarantees are stated: at most one Connected, at most one Disconnected,
// Connected before any media, nothing after Disconnected.
// ---------------------------------------------------------------------------

/// An engine event, reduced to plain values.
#[derive(Debug)]
pub enum TransportEvent {
    /// ICE and DTLS are established; media may flow.
    Connected,
    /// The ICE connection was reported disconnected: the session is over.
    IceDisconnected,
    /// Any other ICE state change.
    IceChange,
    /// The remote side added media: negotiation settled the codec.
    MediaAdded,
    /// A complete inbound codec access unit.
    Media { payload: Vec<u8>, codec: CodecKind },
    /// A statistics report.
    Stats,
    /// Anything else the engine emits.
    Other,
}

/// A session event, as handed to the caller.
#[derive(Debug)]
pub enum WebrtcEvent {
    /// Nothing to report; the caller may drain its outbound queue and call
    /// again.
    Continue,
    /// The session is established.
    Connected,
    /// The session is over; the session must not be driven further.
    Disconnected,
    /// One inbound codec access unit (subscribe mode).
    MediaIngress { payload: Vec<u8>, codec: CodecKind },
    /// A statistics report was emitted.
    Stats,
    /// Codec negotiation settled; codec parameters were cached.
    CodecNegotiated,
}

/// The history-relevant kind of a delivered event.
#[derive(Clone, Copy, Debug, PartialEq, Eq, Structural)]
pub enum EventMark {
    Connected,
    Disconnected,
    Media,
}

/// The mark a session event leaves in the history, if any.
pub open spec fn mark_of(ev: WebrtcEvent) -> Option<EventMark> {
    match ev {
        WebrtcEvent::Connected => Some(EventMark::Connected),
        WebrtcEvent::Disconnected => Some(EventMark::Disconnected),
        WebrtcEvent::MediaIngress { .. } => Some(EventMark::Media),
        _ => None,
    }
}

/// The history after delivering `ev`.
pub open spec fn history_push(h: Seq<EventMark>, ev: WebrtcEvent) -> Seq<EventMark> {
    match mark_of(ev) {
        Some(m) => h.push(m),
        None => h,
    }
}

/// How many times mark `m` occurs in `h`.
pub open spec fn count_mark(h: Seq<EventMark>, m: EventMark) -> nat
    decreases h.len(),
{
    if h.len() == 0 {
        0
    } else {
        count_mark(h.drop_last(), m) + if h.last() == m {
            1nat
        } else {
            0nat
        }
    }
}

/// The ordering guarantee over a delivered-event history.
pub open spec fn ordered_history(h: Seq<EventMark>) -> bool {
    &&& count_mark(h, EventMark::Connected) <= 1
    &&& count_mark(h, EventMark::Disconnected) <= 1
    &&& forall|i: int|
        0 <= i < h.len() && h[i] == EventMark::Media ==> exists|j: int|
            0 <= j < i && h[j] == EventMark::Connected
    &&& forall|i: int| 0 <= i < h.len() && h[i] == EventMark::Disconnected ==> i == h.len() - 1
}

pub proof fn lemma_count_push(h: Seq<EventMark>, m: EventMark, x: EventMark)
    ensures
        count_mark(h.push(x), m) == count_mark(h, m) + if x == m {
            1nat
        } else {
            0nat
        },
{
    assert(h.push(x).drop_last() =~= h);
    assert(h.push(x).last() == x);
}

/// A mark occurs in the history exactly when its count is positive.
pub proof fn lemma_count_exists(h: Seq<EventMark>, m: EventMark)
    ensures
        count_mark(h, m) > 0 <==> exists|i: int| 0 <= i < h.len() && h[i] == m,
    decreases h.len(),
{
    if h.len() > 0 {
        lemma_count_exists(h.drop_last(), m);
        if h.last() == m {
            assert(h[h.len() - 1] == m);
        } else {
            if count_mark(h, m) > 0 {
                let i = choose|i: int| 0 <= i < h.drop_last().len() && h.drop_last()[i] == m;
                assert(h[i] == m);
            }
            if exists|i: int| 0 <= i < h.len() && h[i] == m {
                let i = choose|i: int| 0 <= i < h.len() && h[i] == m;
                assert(i < h.len() - 1);
                assert(h.drop_last()[i] == m);
            }
        }
    }
}

/// Delivering one more event keeps the history ordered, provided no
/// Disconnected was delivered yet, Connected is delivered only once, and
/// media is delivered only after Connected.
pub proof fn lemma_ordered_push(h: Seq<EventMark>, m: EventMark)
    requires
        ordered_history(h),
        count_mark(h, EventMark::Disconnected) == 0,
        m == EventMark::Connected ==> count_mark(h, EventMark::Connected) == 0,
        m == EventMark::Media ==> count_mark(h, EventMark::Connected) > 0,
    ensures
        ordered_history(h.push(m)),
{
    let h2 = h.push(m);
    lemma_count_push(h, EventMark::Connected, m);
    lemma_count_push(h, EventMark::Disconnected, m);
    lemma_count_exists(h, EventMark::Disconnected);
    assert forall|i: int|
        0 <= i < h2.len() && h2[i] == EventMark::Media implies exists|j: int|
        0 <= j < i && h2[j] == EventMark::Connected by {
        if i < h.len() {
            assert(h[i] == EventMark::Media);
            let j = choose|j: int| 0 <= j < i && h[j] == EventMark::Connected;
            assert(h2[j] == EventMark::Connected);
        } else {
            lemma_count_exists(h, EventMark::Connected);
            let j = choose|j: int| 0 <= j < h.len() && h[j] == EventMark::Connected;
            assert(h2[j] == EventMark::Connected);
        }
    }
    assert forall|i: int|
        0 <= i < h2.len() && h2[i] == EventMark::Disconnected implies i == h2.len() - 1 by {
        if i < h.len() {
            assert(h[i] == EventMark::Disconnected);
            lemma_count_exists(h, EventMark::Disconnected);
            assert(false);
        }
    }
}

} // verus!
