use vstd::prelude::*;

use crate::addr::HostAddr;
use crate::candidates::{candidate_seq, select_candidates};
use crate::engine;
use crate::engine::{EngineEvent, EnginePoll, Proto, ReceiveInput};
use crate::events::{
    count_mark, history_push, lemma_count_push, lemma_ordered_push, ordered_history, EventMark,
    TransportEvent, WebrtcEvent,
};
use crate::media::{item_views, plan_of, planned_writes, record_of, CodecInfo, MediaItem, WriteRecord};
use crate::sdp::sanitize_sdp;
use crate::signal::{
    build_whip_headers, classify_response, headers_view, token_view, whip_headers_spec, Header,
    SignalVerdict, MAX_REDIRECT_HOPS,
};

verus! {

// ---------------------------------------------------------------------------
// The session driver.
//
// A Client is a single, non-reusable media session: the transport engine, the
// reported local address, the negotiated track, and the signaling state. The
// caller owns the socket and the HTTP side; the driver decides, the caller
// performs. One driver step is `recv_begin`, possibly completed by
// `recv_complete` after the caller waited for a datagram or the capped
// deadline.
// ---------------------------------------------------------------------------

/// Why signaling failed.
#[derive(Debug, PartialEq, Eq, Structural, Clone, Copy)]
pub enum SignalFault {
    /// The server answered with this status, which is not 201 and not a
    /// redirect that can be followed.
    Status(u16),
    /// More redirects than the hop bound allows.
    TooManyRedirects,
}

/// The session error taxonomy.
#[derive(Debug, PartialEq, Eq, Clone)]
pub enum WebrtcError {
    /// Signaling failed. Fatal at negotiation.
    ServerError(SignalFault),
    /// The offer or answer was malformed or rejected. Fatal at negotiation.
    SdpError,
    /// The transport engine reported a fault. Session-fatal.
    WebrtcError,
    /// A socket failure other than a connection reset. Fatal while driving.
    NetworkError,
    /// A single outbound write was rejected; logged and skipped, not fatal.
    SendError(String),
    /// No usable local interface address. Fatal at session creation.
    NoCandidates,
}

/// Which way media flows in this session, fixed at creation.
#[derive(Clone, Copy, Debug, PartialEq, Eq, Structural)]
pub enum Direction {
    /// Send-only: capture and push media.
    Publish,
    /// Receive-only: pull and render media.
    Subscribe,
}

/// Claims carried by a WHIP bearer token.
#[derive(Debug)]
pub struct WhipClaims {
    pub whip_url: String,
    pub jti: String,
}

/// One signaling POST for the caller to perform: offer body and fixed
/// headers.
#[derive(Debug)]
pub struct SignalRequest {
    pub url: String,
    pub headers: Vec<Header>,
    pub body: Vec<u8>,
}

/// What a signaling response led to.
#[derive(Debug)]
pub enum SignalOutcome {
    /// A redirect: perform this POST (same headers, same body, new URL) and
    /// hand the response back again.
    Repost(SignalRequest),
    /// 201 Created: the answer was accepted and negotiation is closed.
    Established,
}

/// What one driver step asks of the caller.
#[derive(Debug)]
pub enum RecvStep {
    /// The step is complete with this event; no I/O happened.
    Yield(WebrtcEvent),
    /// Send exactly this one datagram to `dest` ("ip:port"); a send failure
    /// is logged and ignored. The session event of this step is `Continue`.
    Transmit { dest: String, payload: Vec<u8> },
    /// Wait up to `wait_us` microseconds (at most 1000) for a datagram, then
    /// call `recv_complete` with what happened.
    Await { wait_us: u64 },
}

/// What the caller observed while awaiting a datagram.
#[derive(Debug)]
pub enum IoEvent {
    /// A datagram arrived from `source` before the deadline.
    Datagram { source: HostAddr, payload: Vec<u8> },
    /// The capped deadline elapsed first.
    DeadlineElapsed,
    /// The socket reported a connection reset; harmless for UDP.
    ConnectionReset,
    /// Any other socket failure.
    SocketError,
}

/// What the driver does with an engine timeout.
#[derive(Debug, PartialEq, Eq, Structural, Clone, Copy)]
pub enum TimeoutStep {
    /// The deadline is already due: feed the engine a timeout right away.
    FeedNow,
    /// Wait for a datagram or the capped deadline, then complete the step.
    Wait { wait_us: u64 },
}

/// Decide the timeout arm of a driver step, from the microseconds left until
/// the engine's requested deadline: a deadline already due is fed to the
/// engine immediately; otherwise the caller waits the remaining time, capped
/// at one millisecond. The cap is load-bearing: it bounds the tail latency of
/// outbound items enqueued between polls, whatever deadline the engine asked
/// for.
pub fn dispatch_timeout(micros: u64) -> (r: TimeoutStep)
    ensures
        micros == 0 ==> r is FeedNow,
        micros > 0 ==> (r matches TimeoutStep::Wait { wait_us } && wait_us == if micros > 1000 {
            1000u64
        } else {
            micros
        }),
{
    if micros == 0 {
        TimeoutStep::FeedNow
    } else if micros > 1000 {
        TimeoutStep::Wait { wait_us: 1000 }
    } else {
        TimeoutStep::Wait { wait_us: micros }
    }
}

/// Everything observable of a session apart from the opaque engine: used by
/// contracts to say what a step changed.
pub struct Observed {
    pub delivered: Seq<EventMark>,
    pub writes: Seq<WriteRecord>,
    pub connected: bool,
    pub finished: bool,
    pub awaiting: bool,
    pub local: HostAddr,
    pub hops: u8,
    pub negotiating: bool,
    pub has_track: bool,
    pub offer: Option<Seq<u8>>,
    pub headers: Seq<(Seq<char>, Seq<char>)>,
    pub params: Seq<CodecInfo>,
}

/// A single real-time media session.
pub struct Client {
    rtc: str0m::Rtc,
    local_addr: HostAddr,
    video_mid: Option<str0m::media::Mid>,
    pending: Option<str0m::change::SdpPendingOffer>,
    offer: Option<Vec<u8>>,
    headers: Vec<Header>,
    hops: u8,
    params: Vec<CodecInfo>,
    connected: bool,
    finished: bool,
    awaiting: bool,
    delivered: Ghost<Seq<EventMark>>,
    writes: Ghost<Seq<WriteRecord>>,
}

impl Client {
    /// The history of delivered Connected / Disconnected / media events.
    pub closed spec fn delivered(self) -> Seq<EventMark> {
        self.delivered@
    }

    /// The history of writes handed to the engine.
    pub closed spec fn writes(self) -> Seq<WriteRecord> {
        self.writes@
    }

    pub closed spec fn connected(self) -> bool {
        self.connected
    }

    /// Terminal: Disconnected was delivered or a fatal error was returned.
    pub closed spec fn finished(self) -> bool {
        self.finished
    }

    /// A `recv_begin` returned `Await` and `recv_complete` is owed.
    pub closed spec fn awaiting(self) -> bool {
        self.awaiting
    }

    /// The reported local address: stamped on every inbound datagram.
    pub closed spec fn reported_local(self) -> HostAddr {
        self.local_addr
    }

    pub closed spec fn hops(self) -> u8 {
        self.hops
    }

    /// An offer is out and an answer has not been accepted.
    pub closed spec fn negotiating(self) -> bool {
        self.pending is Some
    }

    /// A video track was declared.
    pub closed spec fn has_track(self) -> bool {
        self.video_mid is Some
    }

    pub closed spec fn offer_spec(self) -> Option<Seq<u8>> {
        match self.offer {
            Some(o) => Some(o@),
            None => None,
        }
    }

    pub closed spec fn headers_spec(self) -> Seq<(Seq<char>, Seq<char>)> {
        headers_view(self.headers@)
    }

    /// The cached negotiated codec parameter sets.
    pub closed spec fn params_spec(self) -> Seq<CodecInfo> {
        self.params@
    }

    /// The observable session state.
    pub open spec fn obs(self) -> Observed {
        Observed {
            delivered: self.delivered(),
            writes: self.writes(),
            connected: self.connected(),
            finished: self.finished(),
            awaiting: self.awaiting(),
            local: self.reported_local(),
            hops: self.hops(),
            negotiating: self.negotiating(),
            has_track: self.has_track(),
            offer: self.offer_spec(),
            headers: self.headers_spec(),
            params: self.params_spec(),
        }
    }

    /// The session invariant: the delivered history is ordered and the flags
    /// agree with it.
    pub closed spec fn wf(self) -> bool {
        &&& ordered_history(self.delivered@)
        &&& (self.pending is Some ==> self.offer is Some)
        &&& self.connected <==> count_mark(self.delivered@, EventMark::Connected) == 1
        &&& !self.finished ==> count_mark(self.delivered@, EventMark::Disconnected) == 0
    }

    pub fn is_connected(&self) -> (r: bool)
        ensures
            r == self.connected(),
    {
        self.connected
    }

    pub fn is_finished(&self) -> (r: bool)
        ensures
            r == self.finished(),
    {
        self.finished
    }

    pub fn is_negotiating(&self) -> (r: bool)
        ensures
            r == self.negotiating(),
    {
        self.pending.is_some()
    }

    pub fn local_address(&self) -> (r: HostAddr)
        ensures
            r == self.reported_local(),
    {
        self.local_addr
    }

    /// Create a session from the given interface address texts and the bound
    /// socket port. Fails with `NoCandidates` exactly when no address is
    /// usable.
    pub fn new_with_interfaces(addrs: &Vec<String>, port: u16, force_loopback: bool) -> (r:
        Result<Client, WebrtcError>)
        ensures
            match r {
                Ok(c) => {
                    &&& candidate_seq(addrs.deep_view(), port, force_loopback).len() > 0
                    &&& c.wf()
                    &&& c.reported_local() == candidate_seq(
                        addrs.deep_view(),
                        port,
                        force_loopback,
                    ).last()
                    &&& !c.connected()
                    &&& !c.finished()
                    &&& !c.awaiting()
                    &&& !c.negotiating()
                    &&& !c.has_track()
                    &&& c.delivered() == Seq::<EventMark>::empty()
                    &&& c.writes() == Seq::<WriteRecord>::empty()
                    &&& c.offer_spec() is None
                    &&& c.hops() == 0
                    &&& c.params_spec() == Seq::<CodecInfo>::empty()
                },
                Err(e) => {
                    &&& e == WebrtcError::NoCandidates
                    &&& candidate_seq(addrs.deep_view(), port, force_loopback).len() == 0
                },
            },
    {
        let cs = match select_candidates(addrs, port, force_loopback) {
            None => {
                return Err(WebrtcError::NoCandidates);
            },
            Some(cs) => cs,
        };
        let mut rtc = engine::new_rtc();
        let mut i: usize = 0;
        while i < cs.list.len()
            decreases cs.list.len() - i,
        {
            let _kept = engine::add_host_candidate(&mut rtc, &cs.list[i]);
            i = i + 1;
        }
        Ok(
            Client {
                rtc,
                local_addr: cs.reported,
                video_mid: None,
                pending: None,
                offer: None,
                headers: Vec::new(),
                hops: 0,
                params: Vec::new(),
                connected: false,
                finished: false,
                awaiting: false,
                delivered: Ghost(Seq::empty()),
                writes: Ghost(Seq::empty()),
            },
        )
    }

    /// Create a session by enumerating the machine's interfaces. Fails with
    /// `NoCandidates` when enumeration fails or no address is usable.
    pub fn new(port: u16, force_loopback: bool) -> (r: Result<Client, WebrtcError>)
        ensures
            match r {
                Ok(c) => {
                    &&& c.wf()
                    &&& !c.connected()
                    &&& !c.finished()
                    &&& !c.awaiting()
                    &&& !c.negotiating()
                    &&& !c.has_track()
                    &&& c.delivered() == Seq::<EventMark>::empty()
                    &&& c.writes() == Seq::<WriteRecord>::empty()
                    &&& c.offer_spec() is None
                    &&& c.hops() == 0
                },
                Err(e) => e == WebrtcError::NoCandidates,
            },
    {
        match engine::list_interface_addrs() {
            None => Err(WebrtcError::NoCandidates),
            Some(addrs) => Client::new_with_interfaces(&addrs, port, force_loopback),
        }
    }

    /// Refresh the cached codec parameters from the engine's negotiated
    /// configuration. What is cached depends on the engine, so only the rest
    /// of the state is pinned.
    fn refresh_params(&mut self)
        requires
            old(self).wf(),
        ensures
            final(self).wf(),
            final(self).obs() == (Observed {
                params: final(self).params_spec(),
                ..old(self).obs()
            }),
    {
        let list = engine::payload_params_list(&self.rtc);
        let mut infos: Vec<CodecInfo> = Vec::new();
        let mut i: usize = 0;
        while i < list.len()
            decreases list.len() - i,
        {
            infos.push(engine::params_info(&list[i]));
            i = i + 1;
        }
        self.params = infos;
    }

    /// Dispatch one engine event: translate it to the session event for the
    /// caller and update the session. `Connected` is delivered once; media
    /// before `Connected` and all unrecognised events collapse to `Continue`;
    /// an ICE disconnect delivers `Disconnected` and ends the session; a
    /// remote media addition caches the codec parameters.
    pub fn apply_event(&mut self, ev: TransportEvent) -> (r: WebrtcEvent)
        requires
            old(self).wf(),
            !old(self).finished(),
        ensures
            final(self).wf(),
            (ev is Connected && !old(self).connected() ==> r is Connected),
            (ev is Connected && old(self).connected() ==> r is Continue),
            (ev is IceDisconnected ==> r is Disconnected),
            (ev is IceChange ==> r is Continue),
            (ev is MediaAdded ==> r is CodecNegotiated),
            (ev matches TransportEvent::Media { payload: evp, codec: evc } ==> (old(
                self,
            ).connected() ==> (r matches WebrtcEvent::MediaIngress { payload: rp, codec: rc }
                && rp@ == evp@ && rc == evc))),
            (ev is Media && !old(self).connected() ==> r is Continue),
            (ev is Stats ==> r is Stats),
            (ev is Other ==> r is Continue),
            final(self).delivered() == history_push(old(self).delivered(), r),
            final(self).connected() == (old(self).connected() || r is Connected),
            final(self).finished() == (r is Disconnected),
            final(self).writes() == old(self).writes(),
            final(self).awaiting() == old(self).awaiting(),
            final(self).reported_local() == old(self).reported_local(),
            final(self).hops() == old(self).hops(),
            final(self).negotiating() == old(self).negotiating(),
            final(self).has_track() == old(self).has_track(),
            final(self).offer_spec() == old(self).offer_spec(),
            final(self).headers_spec() == old(self).headers_spec(),
            (!(ev is MediaAdded) ==> final(self).params_spec() == old(self).params_spec()),
    {
        let ghost h0 = self.delivered@;
        match ev {
            TransportEvent::Connected => {
                if self.connected {
                    WebrtcEvent::Continue
                } else {
                    proof {
                        lemma_ordered_push(h0, EventMark::Connected);
                        lemma_count_push(h0, EventMark::Connected, EventMark::Connected);
                        lemma_count_push(h0, EventMark::Disconnected, EventMark::Connected);
                    }
                    self.delivered = Ghost(h0.push(EventMark::Connected));
                    self.connected = true;
                    WebrtcEvent::Connected
                }
            },
            TransportEvent::IceDisconnected => {
                proof {
                    lemma_ordered_push(h0, EventMark::Disconnected);
                    lemma_count_push(h0, EventMark::Connected, EventMark::Disconnected);
                    lemma_count_push(h0, EventMark::Disconnected, EventMark::Disconnected);
                }
                self.delivered = Ghost(h0.push(EventMark::Disconnected));
                self.finished = true;
                WebrtcEvent::Disconnected
            },
            TransportEvent::IceChange => WebrtcEvent::Continue,
            TransportEvent::MediaAdded => {
                self.refresh_params();
                WebrtcEvent::CodecNegotiated
            },
            TransportEvent::Media { payload, codec } => {
                if self.connected {
                    proof {
                        lemma_ordered_push(h0, EventMark::Media);
                        lemma_count_push(h0, EventMark::Connected, EventMark::Media);
                        lemma_count_push(h0, EventMark::Disconnected, EventMark::Media);
                    }
                    self.delivered = Ghost(h0.push(EventMark::Media));
                    WebrtcEvent::MediaIngress { payload, codec }
                } else {
                    WebrtcEvent::Continue
                }
            },
            TransportEvent::Stats => WebrtcEvent::Stats,
            TransportEvent::Other => WebrtcEvent::Continue,
        }
    }

    /// One driver step: poll the engine once and dispatch. An event is
    /// delivered without touching I/O or timers; a transmit asks the caller
    /// to send exactly one datagram and counts as `Continue`; a timeout is
    /// decided by `dispatch_timeout` — one already due feeds the engine
    /// immediately (a refusal is the session-fatal engine fault), otherwise
    /// the caller is asked to wait the remaining time, never longer than one
    /// millisecond, and to call `recv_complete`.
    pub fn recv_begin(&mut self) -> (r: Result<RecvStep, WebrtcError>)
        requires
            old(self).wf(),
            !old(self).finished(),
            !old(self).awaiting(),
        ensures
            final(self).wf(),
            match r {
                Ok(step) => match step {
                    RecvStep::Yield(ev) => {
                        &&& final(self).delivered() == history_push(old(self).delivered(), ev)
                        &&& !final(self).awaiting()
                        &&& final(self).finished() == (ev is Disconnected)
                        &&& final(self).connected() == (old(self).connected() || ev is Connected)
                        &&& (ev is MediaIngress ==> old(self).connected())
                        &&& (ev is Connected ==> !old(self).connected())
                        &&& final(self).writes() == old(self).writes()
                        &&& final(self).reported_local() == old(self).reported_local()
                        &&& final(self).negotiating() == old(self).negotiating()
                        &&& final(self).has_track() == old(self).has_track()
                        &&& final(self).offer_spec() == old(self).offer_spec()
                        &&& final(self).headers_spec() == old(self).headers_spec()
                        &&& final(self).hops() == old(self).hops()
                    },
                    RecvStep::Transmit { .. } => final(self).obs() == old(self).obs(),
                    RecvStep::Await { wait_us } => {
                        &&& 1 <= wait_us <= 1000
                        &&& final(self).awaiting()
                        &&& final(self).obs() == (Observed { awaiting: true, ..old(self).obs() })
                    },
                },
                Err(e) => {
                    &&& e == WebrtcError::WebrtcError
                    &&& final(self).finished()
                    &&& final(self).delivered() == old(self).delivered()
                    &&& final(self).writes() == old(self).writes()
                },
            },
    {
        match engine::poll_rtc(&mut self.rtc) {
            EnginePoll::Failed => {
                self.finished = true;
                Err(WebrtcError::WebrtcError)
            },
            EnginePoll::Event(e) => {
                let raw = engine::classify_event(e);
                let ev: TransportEvent = match raw {
                    EngineEvent::Connected => TransportEvent::Connected,
                    EngineEvent::IceDisconnected => TransportEvent::IceDisconnected,
                    EngineEvent::IceChange => TransportEvent::IceChange,
                    EngineEvent::MediaAdded => TransportEvent::MediaAdded,
                    EngineEvent::Media { payload, params } => {
                        let info = engine::params_info(&params);
                        TransportEvent::Media { payload, codec: info.kind }
                    },
                    EngineEvent::Stats => TransportEvent::Stats,
                    EngineEvent::Other => TransportEvent::Other,
                };
                let out = self.apply_event(ev);
                Ok(RecvStep::Yield(out))
            },
            EnginePoll::Transmit { dest, payload } => Ok(RecvStep::Transmit { dest, payload }),
            EnginePoll::Timeout { micros } => match dispatch_timeout(micros) {
                TimeoutStep::FeedNow => {
                    if engine::feed_timeout_now(&mut self.rtc) {
                        Ok(RecvStep::Yield(WebrtcEvent::Continue))
                    } else {
                        self.finished = true;
                        Err(WebrtcError::WebrtcError)
                    }
                },
                TimeoutStep::Wait { wait_us } => {
                    self.awaiting = true;
                    Ok(RecvStep::Await { wait_us })
                },
            },
        }
    }

    /// Complete a driver step that waited for I/O. A datagram is fed to the
    /// engine stamped with the reported local address as destination; an
    /// elapsed deadline feeds a timeout; a connection reset is harmless noise
    /// on UDP and leaves the session unchanged; any other socket failure is
    /// fatal.
    pub fn recv_complete(&mut self, io: IoEvent) -> (r: Result<WebrtcEvent, WebrtcError>)
        requires
            old(self).wf(),
            !old(self).finished(),
            old(self).awaiting(),
        ensures
            final(self).wf(),
            !final(self).awaiting(),
            match r {
                Ok(ev) => {
                    &&& ev is Continue
                    &&& final(self).obs() == (Observed { awaiting: false, ..old(self).obs() })
                },
                Err(e) => {
                    &&& final(self).finished()
                    &&& final(self).delivered() == old(self).delivered()
                    &&& final(self).writes() == old(self).writes()
                    &&& (io is SocketError ==> e == WebrtcError::NetworkError)
                    &&& (!(io is SocketError) ==> e == WebrtcError::WebrtcError)
                },
            },
            (io is ConnectionReset ==> r is Ok),
            (io is SocketError ==> r is Err),
    {
        self.awaiting = false;
        match io {
            IoEvent::Datagram { source, payload } => {
                let input = self.make_receive_input(source, payload);
                if engine::feed_receive(&mut self.rtc, &input) {
                    Ok(WebrtcEvent::Continue)
                } else {
                    self.finished = true;
                    Err(WebrtcError::WebrtcError)
                }
            },
            IoEvent::DeadlineElapsed => {
                if engine::feed_timeout_now(&mut self.rtc) {
                    Ok(WebrtcEvent::Continue)
                } else {
                    self.finished = true;
                    Err(WebrtcError::WebrtcError)
                }
            },
            IoEvent::ConnectionReset => Ok(WebrtcEvent::Continue),
            IoEvent::SocketError => {
                self.finished = true;
                Err(WebrtcError::NetworkError)
            },
        }
    }

    /// Stamp one inbound datagram for the engine: the source is the
    /// kernel-reported peer address, the destination is the reported local
    /// address, and the protocol is UDP.
    pub fn make_receive_input(&self, source: HostAddr, payload: Vec<u8>) -> (r: ReceiveInput)
        ensures
            r.proto == Proto::Udp,
            r.source == source,
            r.destination == self.reported_local(),
            r.payload@ == payload@,
    {
        ReceiveInput { proto: Proto::Udp, source, destination: self.local_addr, payload }
    }
}

/// Copy a byte vector.
fn copy_bytes(v: &Vec<u8>) -> (r: Vec<u8>)
    ensures
        r@ == v@,
{
    let mut r: Vec<u8> = Vec::new();
    let mut i: usize = 0;
    while i < v.len()
        invariant
            i <= v@.len(),
            r@ == v@.take(i as int),
        decreases v@.len() - i,
    {
        r.push(*&v[i]);
        proof {
            assert(v@.take(i + 1) =~= v@.take(i as int).push(v@[i as int]));
        }
        i = i + 1;
    }
    proof {
        assert(v@.take(v@.len() as int) =~= v@);
    }
    r
}

/// Copy a header list, preserving names and values.
fn copy_headers(hs: &Vec<Header>) -> (r: Vec<Header>)
    ensures
        headers_view(r@) =~= headers_view(hs@),
{
    let mut r: Vec<Header> = Vec::new();
    let mut i: usize = 0;
    while i < hs.len()
        invariant
            i <= hs@.len(),
            r@.len() == i,
            forall|k: int|
                0 <= k < i ==> #[trigger] r@[k].name@ == hs@[k].name@ && r@[k].value@
                    == hs@[k].value@,
        decreases hs@.len() - i,
    {
        let name = hs[i].name.clone();
        let value = hs[i].value.clone();
        r.push(Header { name, value });
        i = i + 1;
    }
    r
}

impl Client {
    /// Declare the video track, produce the offer, and fix the signaling
    /// request for the caller to POST: the offer body and the WHIP headers
    /// (bearer token, SDP content type, accept, user agent). The identical
    /// body and headers are retained for redirects.
    pub fn send_whip_request(&mut self, url: String, token: &Option<String>, direction: Direction)
        -> (r: Result<SignalRequest, WebrtcError>)
        requires
            old(self).wf(),
            !old(self).finished(),
            !old(self).negotiating(),
        ensures
            final(self).wf(),
            match r {
                Ok(req) => {
                    &&& final(self).negotiating()
                    &&& final(self).has_track()
                    &&& req.url@ == url@
                    &&& headers_view(req.headers@) =~= whip_headers_spec(token_view(*token))
                    &&& final(self).headers_spec() =~= whip_headers_spec(token_view(*token))
                    &&& final(self).offer_spec() == Some(req.body@)
                    &&& final(self).hops() == 0
                    &&& final(self).delivered() == old(self).delivered()
                    &&& final(self).writes() == old(self).writes()
                    &&& final(self).connected() == old(self).connected()
                    &&& final(self).finished() == old(self).finished()
                    &&& final(self).awaiting() == old(self).awaiting()
                    &&& final(self).reported_local() == old(self).reported_local()
                    &&& final(self).params_spec() == old(self).params_spec()
                },
                Err(e) => {
                    &&& e == WebrtcError::SdpError
                    &&& final(self).obs() == old(self).obs()
                },
            },
    {
        let send_only = matches!(direction, Direction::Publish);
        match engine::create_offer(&mut self.rtc, send_only) {
            None => Err(WebrtcError::SdpError),
            Some((mid, pending, offer_bytes)) => {
                let body = copy_bytes(&offer_bytes);
                self.video_mid = Some(mid);
                self.pending = Some(pending);
                self.offer = Some(offer_bytes);
                self.headers = build_whip_headers(token);
                self.hops = 0;
                Ok(SignalRequest { url, headers: build_whip_headers(token), body })
            },
        }
    }

    /// Judge one signaling response. A 3xx with a Location is followed by
    /// re-POSTing the identical body and headers to the new URL, up to the
    /// hop bound; exactly 201 Created closes negotiation by handing the
    /// sanitised answer to the engine; anything else is fatal with its
    /// status.
    pub fn handle_signal_response(
        &mut self,
        status: u16,
        location: Option<String>,
        body: Vec<u8>,
    ) -> (r: Result<SignalOutcome, WebrtcError>)
        requires
            old(self).wf(),
            !old(self).finished(),
            old(self).negotiating(),
        ensures
            final(self).wf(),
            match r {
                Ok(SignalOutcome::Repost(req)) => {
                    &&& 300 <= status <= 399 && location is Some
                    &&& old(self).hops() < MAX_REDIRECT_HOPS
                    &&& req.url@ == location->Some_0@
                    &&& headers_view(req.headers@) =~= old(self).headers_spec()
                    &&& Some(req.body@) == old(self).offer_spec()
                    &&& final(self).obs() == (Observed {
                        hops: (old(self).hops() + 1) as u8,
                        ..old(self).obs()
                    })
                },
                Ok(SignalOutcome::Established) => {
                    &&& status == 201
                    &&& !final(self).negotiating()
                    &&& final(self).delivered() == old(self).delivered()
                    &&& final(self).writes() == old(self).writes()
                    &&& final(self).connected() == old(self).connected()
                    &&& final(self).finished() == old(self).finished()
                    &&& final(self).awaiting() == old(self).awaiting()
                    &&& final(self).reported_local() == old(self).reported_local()
                    &&& final(self).has_track() == old(self).has_track()
                },
                Err(e) => {
                    &&& final(self).finished()
                    &&& final(self).delivered() == old(self).delivered()
                    &&& final(self).writes() == old(self).writes()
                    &&& (e == WebrtcError::SdpError ==> status == 201)
                    &&& (300 <= status <= 399 && location is Some && old(self).hops()
                        >= MAX_REDIRECT_HOPS ==> e == WebrtcError::ServerError(
                        SignalFault::TooManyRedirects,
                    ))
                    &&& (!(300 <= status <= 399 && location is Some) && status != 201 ==> e
                        == WebrtcError::ServerError(SignalFault::Status(status)))
                },
            },
            (300 <= status <= 399 && location is Some && old(self).hops() < MAX_REDIRECT_HOPS
                ==> r matches Ok(SignalOutcome::Repost(_))),
            (status == 201 ==> (r matches Ok(SignalOutcome::Established) || (r matches Err(e2)
                && e2 == WebrtcError::SdpError))),
            (300 <= status <= 399 && location is Some && old(self).hops() >= MAX_REDIRECT_HOPS
                ==> r is Err),
            (!(300 <= status <= 399 && location is Some) && status != 201 ==> r is Err),
    {
        match classify_response(status, location) {
            SignalVerdict::Follow(url) => {
                if self.hops >= MAX_REDIRECT_HOPS {
                    self.finished = true;
                    Err(WebrtcError::ServerError(SignalFault::TooManyRedirects))
                } else {
                    self.hops = self.hops + 1;
                    let req_body = match &self.offer {
                        Some(o) => copy_bytes(o),
                        None => vstd::pervasive::unreached(),
                    };
                    let req_headers = copy_headers(&self.headers);
                    Ok(
                        SignalOutcome::Repost(
                            SignalRequest { url, headers: req_headers, body: req_body },
                        ),
                    )
                }
            },
            SignalVerdict::Accept => {
                let sanitized = sanitize_sdp(&body);
                match self.pending.take() {
                    Some(p) => {
                        if engine::accept_answer(&mut self.rtc, p, &sanitized) {
                            self.refresh_params();
                            Ok(SignalOutcome::Established)
                        } else {
                            self.finished = true;
                            Err(WebrtcError::SdpError)
                        }
                    },
                    None => vstd::pervasive::unreached(),
                }
            },
            SignalVerdict::Reject(code) => {
                self.finished = true;
                Err(WebrtcError::ServerError(SignalFault::Status(code)))
            },
        }
    }

    /// Server side: accept a POSTed offer and produce the answer SDP. The
    /// engine judges the offer; on success the negotiated codec parameters
    /// are cached.
    pub fn accept_whip_request(&mut self, offer: Vec<u8>) -> (r: Result<Vec<u8>, WebrtcError>)
        requires
            old(self).wf(),
            !old(self).finished(),
            !old(self).negotiating(),
        ensures
            final(self).wf(),
            match r {
                Ok(_) => {
                    &&& !final(self).negotiating()
                    &&& final(self).delivered() == old(self).delivered()
                    &&& final(self).writes() == old(self).writes()
                    &&& final(self).connected() == old(self).connected()
                    &&& final(self).finished() == old(self).finished()
                    &&& final(self).awaiting() == old(self).awaiting()
                    &&& final(self).reported_local() == old(self).reported_local()
                    &&& final(self).has_track() == old(self).has_track()
                },
                Err(e) => {
                    &&& e == WebrtcError::SdpError
                    &&& final(self).obs() == old(self).obs()
                },
            },
    {
        match engine::accept_offer(&mut self.rtc, &offer) {
            Some(answer) => {
                self.refresh_params();
                Ok(answer)
            },
            None => Err(WebrtcError::SdpError),
        }
    }

    /// Queue one outbound access unit. Without a declared track this is a
    /// no-op; with one, the payload type is pinned to the negotiated H.264
    /// parameter set and the presentation time is rebased to its clock. A
    /// missing match, an unrepresentable media time, or an engine rejection
    /// is a per-packet send error: the item is dropped, the session lives
    /// on.
    pub fn send_video(&mut self, frame: Vec<u8>, pts_us: u64) -> (r: Result<(), WebrtcError>)
        requires
            old(self).wf(),
        ensures
            final(self).wf(),
            final(self).delivered() == old(self).delivered(),
            final(self).connected() == old(self).connected(),
            final(self).finished() == old(self).finished(),
            final(self).awaiting() == old(self).awaiting(),
            final(self).reported_local() == old(self).reported_local(),
            final(self).hops() == old(self).hops(),
            final(self).negotiating() == old(self).negotiating(),
            final(self).has_track() == old(self).has_track(),
            final(self).offer_spec() == old(self).offer_spec(),
            final(self).headers_spec() == old(self).headers_spec(),
            final(self).params_spec() == old(self).params_spec(),
            (!old(self).has_track() ==> r is Ok && final(self).writes() == old(self).writes()),
            (old(self).has_track() && plan_of(old(self).params_spec(), pts_us) is None ==> (
            r matches Err(WebrtcError::SendError(_)) && final(self).writes() == old(
                self,
            ).writes())),
            (old(self).has_track() ==> (plan_of(old(self).params_spec(), pts_us) matches Some(
                plan,
            ) ==> (final(self).writes() == old(self).writes().push(record_of(plan, frame@)) && (
            r is Ok || r matches Err(WebrtcError::SendError(_)))))),
    {
        let mid = match &self.video_mid {
            Some(m) => *m,
            None => {
                return Ok(());
            },
        };
        let plan = match crate::media::plan_write(&self.params, pts_us) {
            None => {
                return Err(
                    WebrtcError::SendError(String::from_str("no matching H.264 payload type")),
                );
            },
            Some(p) => p,
        };
        let ghost rec = record_of(plan, frame@);
        let res = engine::write_media(
            &mut self.rtc,
            mid,
            plan.pt,
            plan.clock_rate,
            plan.rtp_time,
            frame,
        );
        self.writes = Ghost(self.writes@.push(rec));
        match res {
            Ok(_) => Ok(()),
            Err(msg) => Err(WebrtcError::SendError(msg)),
        }
    }

    /// Drain the outbound queue: one write per item, in enqueue order. A
    /// finished session, or one without a track, drains nothing; an item the
    /// engine rejects is dropped as a per-packet send error and draining
    /// goes on.
    pub fn drain_outbound(&mut self, items: &Vec<MediaItem>)
        requires
            old(self).wf(),
        ensures
            final(self).wf(),
            final(self).delivered() == old(self).delivered(),
            final(self).connected() == old(self).connected(),
            final(self).finished() == old(self).finished(),
            final(self).awaiting() == old(self).awaiting(),
            final(self).reported_local() == old(self).reported_local(),
            final(self).hops() == old(self).hops(),
            final(self).negotiating() == old(self).negotiating(),
            final(self).has_track() == old(self).has_track(),
            final(self).offer_spec() == old(self).offer_spec(),
            final(self).headers_spec() == old(self).headers_spec(),
            final(self).params_spec() == old(self).params_spec(),
            final(self).writes() == old(self).writes() + if old(self).finished() || !old(
                self,
            ).has_track() {
                Seq::<WriteRecord>::empty()
            } else {
                planned_writes(old(self).params_spec(), item_views(items@))
            },
    {
        if self.finished || !matches!(&self.video_mid, Some(_)) {
            proof {
                assert(self.writes@ + Seq::<WriteRecord>::empty() =~= self.writes@);
            }
            return ;
        }
        let ghost w0 = self.writes@;
        let ghost params0 = self.params@;
        let mut i: usize = 0;
        while i < items.len()
            invariant
                i <= items@.len(),
                self.wf(),
                self.writes@ == w0 + planned_writes(params0, item_views(items@.take(i as int))),
                self.delivered() == old(self).delivered(),
                self.connected() == old(self).connected(),
                self.finished() == old(self).finished(),
                !self.finished(),
                self.awaiting() == old(self).awaiting(),
                self.reported_local() == old(self).reported_local(),
                self.hops() == old(self).hops(),
                self.negotiating() == old(self).negotiating(),
                self.has_track(),
                self.has_track() == old(self).has_track(),
                self.offer_spec() == old(self).offer_spec(),
                self.headers_spec() == old(self).headers_spec(),
                self.params_spec() == old(self).params_spec(),
                params0 == self.params@,
                w0 == old(self).writes(),
            decreases items@.len() - i,
        {
            let payload = copy_bytes(&items[i].payload);
            let pts_us = items[i].pts_us;
            let ghost before = self.writes@;
            let _per_packet = self.send_video(payload, pts_us);
            proof {
                let taken = item_views(items@.take(i + 1));
                assert(taken.drop_last() =~= item_views(items@.take(i as int)));
                assert(taken.last() == items@[i as int]@);
                match plan_of(params0, pts_us) {
                    Some(p) => {
                        assert(self.writes@ == before.push(record_of(p, items@[i as int].payload@)));
                        assert(planned_writes(params0, taken) =~= planned_writes(
                            params0,
                            taken.drop_last(),
                        ).push(record_of(p, taken.last().payload)));
                        assert(self.writes@ =~= w0 + planned_writes(params0, taken));
                    },
                    None => {
                        assert(planned_writes(params0, taken) =~= planned_writes(
                            params0,
                            taken.drop_last(),
                        ));
                        assert(self.writes@ =~= w0 + planned_writes(params0, taken));
                    },
                }
            }
            i = i + 1;
        }
        proof {
            assert(items@.take(items@.len() as int) =~= items@);
        }
    }
}

/// In any session, the delivered events hold at most one `Connected` and at
/// most one `Disconnected`, every media ingress is preceded by `Connected`,
/// and nothing follows `Disconnected`.
pub proof fn lemma_event_order(c: Client)
    requires
        c.wf(),
    ensures
        count_mark(c.delivered(), EventMark::Connected) <= 1,
        count_mark(c.delivered(), EventMark::Disconnected) <= 1,
        forall|i: int|
            0 <= i < c.delivered().len() && c.delivered()[i] == EventMark::Media ==> exists|j: int|
                0 <= j < i && c.delivered()[j] == EventMark::Connected,
        forall|i: int|
            0 <= i < c.delivered().len() && c.delivered()[i] == EventMark::Disconnected ==> i
                == c.delivered().len() - 1,
{
}

} // verus!
