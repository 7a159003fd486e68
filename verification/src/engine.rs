use vstd::prelude::*;

use crate::addr::HostAddr;
use crate::media::CodecInfo;
use crate::media::CodecKind;
use str0m::media::{Direction, MediaKind};
use str0m::{Event, IceConnectionState};

verus! {

// ---------------------------------------------------------------------------
// The transport-engine boundary.
//
// The real-time transport state machine (ICE, DTLS, SRTP, congestion control,
// reassembly) is str0m's Rtc: a sans-I/O engine driven entirely by the
// session driver. Everything the driver decides is verified against plain
// values; only the calls into the engine below are trusted, and each states
// no more than str0m's source shows.
// ---------------------------------------------------------------------------

#[verifier::external_type_specification]
#[verifier::external_body]
pub struct ExRtc(str0m::Rtc);

#[verifier::external_type_specification]
#[verifier::external_body]
pub struct ExSdpPendingOffer(str0m::change::SdpPendingOffer);

#[verifier::external_type_specification]
#[verifier::external_body]
pub struct ExMid(str0m::media::Mid);

#[verifier::external_type_specification]
#[verifier::external_body]
pub struct ExEvent(str0m::Event);

#[verifier::external_type_specification]
#[verifier::external_body]
pub struct ExPayloadParams(str0m::format::PayloadParams);

/// The one transport protocol this session feeds the engine.
#[derive(Clone, Copy, Debug, PartialEq, Eq, Structural)]
pub enum Proto {
    Udp,
}

/// One inbound datagram, as handed to the engine.
pub struct ReceiveInput {
    pub proto: Proto,
    /// The kernel-reported peer address.
    pub source: HostAddr,
    /// The reported local address: the host candidate the peer reached.
    pub destination: HostAddr,
    pub payload: Vec<u8>,
}

/// One poll of the engine, reduced to plain values where possible.
pub(crate) enum EnginePoll {
    /// The engine reported a fault.
    Failed,
    /// The engine asks to be woken within `micros` microseconds.
    Timeout { micros: u64 },
    /// The engine asks that one datagram be sent.
    Transmit { dest: String, payload: Vec<u8> },
    /// The engine emitted an event.
    Event(str0m::Event),
}

/// An engine event told apart by variant; media payload parameters stay
/// opaque until read through `params_info`.
pub(crate) enum EngineEvent {
    Connected,
    IceDisconnected,
    IceChange,
    MediaAdded,
    Media { payload: Vec<u8>, params: str0m::format::PayloadParams },
    Stats,
    Other,
}

/// Relies on local_ip_address::list_afinet_netifas: every local interface
/// address, each rendered in its display form ("192.168.1.7", "fe80::1").
/// What comes back depends on the machine, so nothing more is stated.
#[verifier::external_body]
pub(crate) fn list_interface_addrs() -> (r: Option<Vec<String>>) {
    match local_ip_address::list_afinet_netifas() {
        Ok(v) => Some(v.into_iter().map(|(_, ip)| ip.to_string()).collect()),
        Err(_) => None,
    }
}

/// Relies on str0m's RtcConfig builder: an engine with only H.264 enabled, a
/// 2 s statistics interval, and video and audio reordering depth 1 for
/// minimum latency.
#[verifier::external_body]
pub(crate) fn new_rtc() -> (r: str0m::Rtc) {
    str0m::Rtc::builder()
        .clear_codecs()
        .enable_h264(true)
        .set_stats_interval(Some(std::time::Duration::from_secs(2)))
        .set_reordering_size_video(1)
        .set_reordering_size_audio(1)
        .build(std::time::Instant::now())
}

/// Relies on str0m's Candidate::host and Rtc::add_local_candidate: submits
/// one UDP host candidate; returns whether the engine kept it.
#[verifier::external_body]
pub(crate) fn add_host_candidate(rtc: &mut str0m::Rtc, addr: &HostAddr) -> (r: bool) {
    let text = format!("{}.{}.{}.{}:{}", addr.a, addr.b, addr.c, addr.d, addr.port);
    match str0m::Candidate::host(text.parse().unwrap(), "udp") {
        Ok(c) => rtc.add_local_candidate(c).is_some(),
        Err(_) => false,
    }
}

/// Relies on str0m's SdpApi: declares one video track ("video_0") with the
/// given direction and produces the offer; returns the track handle, the
/// pending change to resolve on the answer, and the offer SDP bytes. The
/// offer content depends on engine state (random ICE credentials), so nothing
/// is stated of it.
#[verifier::external_body]
pub(crate) fn create_offer(rtc: &mut str0m::Rtc, send_only: bool) -> (r: Option<
    (str0m::media::Mid, str0m::change::SdpPendingOffer, Vec<u8>),
>) {
    let dir = if send_only { Direction::SendOnly } else { Direction::RecvOnly };
    let track = Some("video_0".to_string());
    let mut api = rtc.sdp_api();
    let mid = api.add_media(MediaKind::Video, dir, track.clone(), track, None);
    match api.apply() {
        Some((offer, pending)) => Some((mid, pending, offer.to_sdp_string().into_bytes())),
        None => None,
    }
}

/// Relies on str0m's SdpAnswer::from_sdp_string and SdpApi::accept_answer:
/// parses the answer and closes negotiation; returns whether the engine
/// accepted it (invalid UTF-8 counts as rejected).
#[verifier::external_body]
pub(crate) fn accept_answer(
    rtc: &mut str0m::Rtc,
    pending: str0m::change::SdpPendingOffer,
    answer: &Vec<u8>,
) -> (r: bool) {
    let Ok(text) = std::str::from_utf8(answer) else { return false };
    let Ok(sdp) = str0m::change::SdpAnswer::from_sdp_string(text) else { return false };
    rtc.sdp_api().accept_answer(pending, sdp).is_ok()
}

/// Relies on str0m's SdpOffer::from_sdp_string and SdpApi::accept_offer:
/// accepts a peer offer and returns the answer SDP bytes, or `None` when the
/// engine rejected the offer (invalid UTF-8 counts as rejected).
#[verifier::external_body]
pub(crate) fn accept_offer(rtc: &mut str0m::Rtc, offer: &Vec<u8>) -> (r: Option<Vec<u8>>) {
    let Ok(text) = std::str::from_utf8(offer) else { return None };
    let Ok(sdp) = str0m::change::SdpOffer::from_sdp_string(text) else { return None };
    match rtc.sdp_api().accept_offer(sdp) {
        Ok(answer) => Some(answer.to_sdp_string().into_bytes()),
        Err(_) => None,
    }
}

/// Relies on str0m's Rtc::poll_output: one poll, with the deadline of a
/// `Timeout` converted to microseconds from now (saturating at zero and at
/// `u64::MAX`) and a `Transmit` reduced to its destination text and payload
/// bytes. What comes back depends on engine state, so nothing is stated.
#[verifier::external_body]
pub(crate) fn poll_rtc(rtc: &mut str0m::Rtc) -> (r: EnginePoll) {
    match rtc.poll_output() {
        Err(_) => EnginePoll::Failed,
        Ok(str0m::Output::Timeout(t)) => {
            let left = t.saturating_duration_since(std::time::Instant::now());
            EnginePoll::Timeout { micros: u64::try_from(left.as_micros()).unwrap_or(u64::MAX) }
        },
        Ok(str0m::Output::Transmit(t)) => EnginePoll::Transmit {
            dest: t.destination.to_string(),
            payload: t.contents.into(),
        },
        Ok(str0m::Output::Event(e)) => EnginePoll::Event(e),
    }
}

/// Relies on str0m's Event enum: tells the variants this driver reacts to
/// apart, moving fields only.
#[verifier::external_body]
pub(crate) fn classify_event(ev: str0m::Event) -> (r: EngineEvent) {
    match ev {
        Event::Connected => EngineEvent::Connected,
        Event::IceConnectionStateChange(IceConnectionState::Disconnected) => {
            EngineEvent::IceDisconnected
        },
        Event::IceConnectionStateChange(_) => EngineEvent::IceChange,
        Event::MediaAdded(_) => EngineEvent::MediaAdded,
        Event::MediaData(m) => EngineEvent::Media { payload: m.data.to_vec(), params: m.params },
        Event::PeerStats(_) | Event::MediaIngressStats(_) => EngineEvent::Stats,
        Event::MediaEgressStats(_) => EngineEvent::Stats,
        _ => EngineEvent::Other,
    }
}

/// Relies on str0m's Rtc::codec_config: the negotiated payload parameter
/// sets, cloned out.
#[verifier::external_body]
pub(crate) fn payload_params_list(rtc: &str0m::Rtc) -> (r: Vec<str0m::format::PayloadParams>) {
    rtc.codec_config().params().to_vec()
}

/// Relies on str0m's PayloadParams accessors: the payload type, codec family,
/// clock rate, and `profile-level-id` format parameter, as plain values.
#[verifier::external_body]
pub(crate) fn params_info(p: &str0m::format::PayloadParams) -> (r: CodecInfo) {
    let spec = p.spec();
    let kind = match spec.codec {
        str0m::format::Codec::H264 => CodecKind::H264,
        str0m::format::Codec::H265 => CodecKind::H265,
        str0m::format::Codec::Av1 => CodecKind::Av1,
        str0m::format::Codec::Vp8 => CodecKind::Vp8,
        str0m::format::Codec::Vp9 => CodecKind::Vp9,
        _ => CodecKind::Other,
    };
    CodecInfo {
        kind,
        pt: *p.pt(),
        clock_rate: spec.clock_rate.get(),
        profile_level_id: spec.format.profile_level_id,
    }
}

/// Relies on str0m's Rtc::handle_input with a timeout at the current instant:
/// drives engine time forward; returns whether the engine accepted it.
#[verifier::external_body]
pub(crate) fn feed_timeout_now(rtc: &mut str0m::Rtc) -> (r: bool) {
    rtc.handle_input(str0m::Input::Timeout(std::time::Instant::now())).is_ok()
}

/// Relies on str0m's Receive::new and Rtc::handle_input: feeds one inbound
/// datagram, stamped with the given source and destination. A datagram whose
/// first byte matches no known framing is ignored (returns true), as the
/// engine itself would discard it; otherwise returns whether the engine
/// accepted the input.
#[verifier::external_body]
pub(crate) fn feed_receive(rtc: &mut str0m::Rtc, input: &ReceiveInput) -> (r: bool) {
    let proto = match input.proto {
        Proto::Udp => str0m::net::Protocol::Udp,
    };
    let s = &input.source;
    let d = &input.destination;
    let source = format!("{}.{}.{}.{}:{}", s.a, s.b, s.c, s.d, s.port).parse().unwrap();
    let destination = format!("{}.{}.{}.{}:{}", d.a, d.b, d.c, d.d, d.port).parse().unwrap();
    let Ok(recv) = str0m::net::Receive::new(proto, source, destination, input.payload.as_slice())
    else { return true };
    rtc.handle_input(str0m::Input::Receive(std::time::Instant::now(), recv)).is_ok()
}

/// Relies on str0m's Rtc::writer and Writer::write: queues one outbound
/// access unit on the negotiated track with the given payload type and media
/// time (`rtp_time` ticks at `clock_rate` Hz); the wallclock is now. Returns
/// the engine's error text on failure.
#[verifier::external_body]
pub(crate) fn write_media(
    rtc: &mut str0m::Rtc,
    mid: str0m::media::Mid,
    pt: u8,
    clock_rate: u32,
    rtp_time: u64,
    payload: Vec<u8>,
) -> (r: Result<(), String>) {
    let Some(writer) = rtc.writer(mid) else { return Err("no writer for track".to_string()) };
    let Some(freq) = str0m::media::Frequency::new(clock_rate) else {
        return Err("zero clock rate".to_string())
    };
    let time = str0m::media::MediaTime::new(rtp_time, freq);
    writer.write(pt.into(), std::time::Instant::now(), time, payload).map_err(|e| e.to_string())
}

} // verus!
