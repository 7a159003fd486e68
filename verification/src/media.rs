use vstd::prelude::*;

verus! {

// ---------------------------------------------------------------------------
// Outbound media planning.
//
// After negotiation the transport engine holds a list of codec parameter
// sets. Writes must use the payload type whose codec is H.264 and whose
// `profile-level-id` equals the pinned Constrained Baseline Level 3.1 value:
// peers may offer several H.264 profiles and only this one matches the
// hardware encoder's output. The presentation time of an item, in
// microseconds since session start, is rebased to the codec's RTP clock rate
// before the write.
// ---------------------------------------------------------------------------

/// `profile-level-id` of H.264 Constrained Baseline Level 3.1 (0x42E01F).
pub const H264_PINNED_PROFILE: u32 = 4382751;

/// The codec family of a negotiated payload, as far as this library reads it.
#[derive(Clone, Copy, Debug, PartialEq, Eq, Structural)]
pub enum CodecKind {
    H264,
    H265,
    Av1,
    Vp8,
    Vp9,
    Other,
}

/// One negotiated codec parameter set, as plain values.
#[derive(Clone, Copy, Debug, PartialEq, Eq)]
pub struct CodecInfo {
    pub kind: CodecKind,
    pub pt: u8,
    pub clock_rate: u32,
    pub profile_level_id: Option<u32>,
}

/// The parameter set writes are pinned to.
pub open spec fn is_h264_match(ci: CodecInfo) -> bool {
    ci.kind == CodecKind::H264 && ci.profile_level_id == Some(H264_PINNED_PROFILE)
}

/// The first parameter set whose codec is H.264 with the pinned profile.
pub open spec fn find_h264_spec(s: Seq<CodecInfo>) -> Option<CodecInfo>
    decreases s.len(),
{
    if s.len() == 0 {
        None
    } else if is_h264_match(s[0]) {
        Some(s[0])
    } else {
        find_h264_spec(s.drop_first())
    }
}

/// Locate the pinned H.264 parameter set among the negotiated ones.
pub fn find_h264(params: &Vec<CodecInfo>) -> (r: Option<CodecInfo>)
    ensures
        r == find_h264_spec(params@),
{
    let mut i: usize = 0;
    proof {
        assert(params@.skip(0) =~= params@);
    }
    while i < params.len()
        invariant
            i <= params@.len(),
            find_h264_spec(params@) == find_h264_spec(params@.skip(i as int)),
        decreases params@.len() - i,
    {
        let ci = params[i];
        let is_match = match ci.kind {
            CodecKind::H264 => match ci.profile_level_id {
                Some(p) => p == H264_PINNED_PROFILE,
                None => false,
            },
            _ => false,
        };
        proof {
            assert(params@.skip(i as int)[0] == params@[i as int]);
            assert(params@.skip(i as int).drop_first() =~= params@.skip(i as int + 1));
        }
        if is_match {
            assert(is_h264_match(params@[i as int]));
            return Some(ci);
        }
        assert(!is_h264_match(params@[i as int]));
        i = i + 1;
    }
    proof {
        assert(params@.skip(params@.len() as int) =~= Seq::<CodecInfo>::empty());
    }
    None
}

/// A presentation time in microseconds, rebased to a codec clock (e.g. 90 kHz
/// for H.264): the number of whole clock ticks that fit in the duration.
pub open spec fn rebase_spec(pts_us: nat, clock_rate: nat) -> nat {
    (pts_us * clock_rate) / 1000000
}

/// Convert a presentation time (microseconds since session start) into units
/// of the codec's RTP clock rate.
pub fn rebase_to_clock(pts_us: u64, clock_rate: u32) -> (r: u64)
    requires
        rebase_spec(pts_us as nat, clock_rate as nat) <= u64::MAX,
    ensures
        r == rebase_spec(pts_us as nat, clock_rate as nat),
{
    let wide: u128 = (pts_us as u128) * (clock_rate as u128);
    (wide / 1000000) as u64
}

/// As `rebase_to_clock`, but reports a rebased time that does not fit.
pub fn rebase_checked(pts_us: u64, clock_rate: u32) -> (r: Option<u64>)
    ensures
        match r {
            Some(v) => v == rebase_spec(pts_us as nat, clock_rate as nat),
            None => rebase_spec(pts_us as nat, clock_rate as nat) > u64::MAX,
        },
{
    proof {
        assert((pts_us as int) * (clock_rate as int) <= (u64::MAX as int) * (u32::MAX as int))
            by (nonlinear_arith)
            requires
                pts_us as int <= u64::MAX as int,
                clock_rate as int <= u32::MAX as int,
        ;
    }
    let wide: u128 = (pts_us as u128) * (clock_rate as u128);
    let ticks: u128 = wide / 1000000;
    if ticks <= u64::MAX as u128 {
        Some(ticks as u64)
    } else {
        None
    }
}

/// What one outbound item hands to the transport engine: the pinned payload
/// type, its clock rate, and the rebased media time.
#[derive(Clone, Copy, Debug, PartialEq, Eq, Structural)]
pub struct WritePlan {
    pub pt: u8,
    pub clock_rate: u32,
    pub rtp_time: u64,
}

/// The write an item with presentation time `pts_us` gets, given the
/// negotiated parameter sets: `None` when no parameter set matches the pinned
/// H.264 profile, or when the rebased time does not fit a `u64`.
pub open spec fn plan_of(params: Seq<CodecInfo>, pts_us: u64) -> Option<WritePlan> {
    match find_h264_spec(params) {
        None => None,
        Some(ci) => {
            if rebase_spec(pts_us as nat, ci.clock_rate as nat) <= u64::MAX {
                Some(
                    WritePlan {
                        pt: ci.pt,
                        clock_rate: ci.clock_rate,
                        rtp_time: rebase_spec(pts_us as nat, ci.clock_rate as nat) as u64,
                    },
                )
            } else {
                None
            }
        },
    }
}

/// Plan one outbound write.
pub fn plan_write(params: &Vec<CodecInfo>, pts_us: u64) -> (r: Option<WritePlan>)
    ensures
        r == plan_of(params@, pts_us),
{
    match find_h264(params) {
        None => None,
        Some(ci) => match rebase_checked(pts_us, ci.clock_rate) {
            None => None,
            Some(t) => Some(WritePlan { pt: ci.pt, clock_rate: ci.clock_rate, rtp_time: t }),
        },
    }
}

/// One outbound media item: a codec access unit already in on-wire form, and
/// its presentation time in microseconds since session start.
pub struct MediaItem {
    pub payload: Vec<u8>,
    pub pts_us: u64,
}

/// A media item at specification level.
pub struct MediaItemView {
    pub payload: Seq<u8>,
    pub pts_us: u64,
}

impl View for MediaItem {
    type V = MediaItemView;

    open spec fn view(&self) -> MediaItemView {
        MediaItemView { payload: self.payload@, pts_us: self.pts_us }
    }
}

/// The views of a queue of items, in order.
pub open spec fn item_views(items: Seq<MediaItem>) -> Seq<MediaItemView> {
    items.map(|i: int, m: MediaItem| m@)
}

/// One write handed to the transport engine, as recorded in a session's
/// write history.
pub struct WriteRecord {
    pub pt: u8,
    pub clock_rate: u32,
    pub rtp_time: u64,
    pub payload: Seq<u8>,
}

/// The write record a plan and a payload produce.
pub open spec fn record_of(plan: WritePlan, payload: Seq<u8>) -> WriteRecord {
    WriteRecord {
        pt: plan.pt,
        clock_rate: plan.clock_rate,
        rtp_time: plan.rtp_time,
        payload,
    }
}

/// The writes a queue of items produces, in enqueue order: one per item that
/// can be planned, none for an item that cannot (it is dropped with a send
/// error).
pub open spec fn planned_writes(params: Seq<CodecInfo>, items: Seq<MediaItemView>) -> Seq<
    WriteRecord,
>
    decreases items.len(),
{
    if items.len() == 0 {
        Seq::empty()
    } else {
        planned_writes(params, items.drop_last()) + match plan_of(params, items.last().pts_us) {
            Some(p) => seq![record_of(p, items.last().payload)],
            None => Seq::empty(),
        }
    }
}

/// With a pinned H.264 parameter set negotiated and every rebased time in
/// range, draining a queue plans exactly one write per item, in enqueue
/// order, each carrying its own item's payload and rebased media time.
pub proof fn lemma_drain_order(params: Seq<CodecInfo>, items: Seq<MediaItemView>)
    requires
        find_h264_spec(params) is Some,
        forall|i: int|
            0 <= i < items.len() ==> rebase_spec(
                items[i].pts_us as nat,
                find_h264_spec(params)->Some_0.clock_rate as nat,
            ) <= u64::MAX,
    ensures
        planned_writes(params, items).len() == items.len(),
        forall|i: int|
            0 <= i < items.len() ==> #[trigger] planned_writes(params, items)[i] == record_of(
                plan_of(params, items[i].pts_us)->Some_0,
                items[i].payload,
            ),
    decreases items.len(),
{
    if items.len() > 0 {
        let front = items.drop_last();
        assert forall|i: int|
            0 <= i < front.len() implies rebase_spec(
            front[i].pts_us as nat,
            find_h264_spec(params)->Some_0.clock_rate as nat,
        ) <= u64::MAX by {
            assert(front[i] == items[i]);
        }
        lemma_drain_order(params, front);
        let last = items.last();
        assert(plan_of(params, last.pts_us) is Some);
        let whole = planned_writes(params, items);
        assert forall|i: int|
            0 <= i < items.len() implies #[trigger] planned_writes(params, items)[i] == record_of(
            plan_of(params, items[i].pts_us)->Some_0,
            items[i].payload,
        ) by {
            if i < front.len() {
                assert(whole[i] == planned_writes(params, front)[i]);
                assert(items[i] == front[i]);
            } else {
                assert(i == items.len() - 1);
                assert(whole[i] == record_of(plan_of(params, last.pts_us)->Some_0, last.payload));
            }
        }
    }
}

/// Rebasing keeps the order of presentation times.
pub proof fn lemma_rebase_ordered(p1: u64, p2: u64, clock_rate: u32)
    requires
        p1 <= p2,
    ensures
        rebase_spec(p1 as nat, clock_rate as nat) <= rebase_spec(p2 as nat, clock_rate as nat),
{
    vstd::arithmetic::mul::lemma_mul_inequality(p1 as int, p2 as int, clock_rate as int);
    vstd::arithmetic::div_mod::lemma_div_is_ordered(
        p1 as int * clock_rate as int,
        p2 as int * clock_rate as int,
        1000000,
    );
}

/// Writes planned in one session use one payload type and one clock, and
/// their media times never decrease with presentation time; when the
/// presentation times are at least one clock tick apart, the media times
/// strictly increase.
pub proof fn lemma_plan_order(params: Seq<CodecInfo>, p1: u64, p2: u64)
    requires
        p1 <= p2,
        plan_of(params, p1) is Some,
        plan_of(params, p2) is Some,
    ensures
        plan_of(params, p1)->Some_0.pt == plan_of(params, p2)->Some_0.pt,
        plan_of(params, p1)->Some_0.clock_rate == plan_of(params, p2)->Some_0.clock_rate,
        plan_of(params, p1)->Some_0.rtp_time <= plan_of(params, p2)->Some_0.rtp_time,
        (p2 - p1) * plan_of(params, p1)->Some_0.clock_rate >= 1000000 ==> plan_of(
            params,
            p1,
        )->Some_0.rtp_time < plan_of(params, p2)->Some_0.rtp_time,
{
    let ci = find_h264_spec(params)->Some_0;
    let rate = ci.clock_rate as int;
    lemma_rebase_ordered(p1, p2, ci.clock_rate);
    if (p2 - p1) * rate >= 1000000 {
        assert(p2 as int * rate - p1 as int * rate == (p2 - p1) * rate) by (nonlinear_arith);
        assert(p2 as int * rate >= p1 as int * rate + 1000000);
        vstd::arithmetic::div_mod::lemma_hoist_over_denominator(
            p1 as int * rate,
            1,
            1000000nat,
        );
        assert((p1 as int * rate + 1000000) / 1000000 == (p1 as int * rate) / 1000000 + 1);
        vstd::arithmetic::div_mod::lemma_div_is_ordered(
            p1 as int * rate + 1000000,
            p2 as int * rate,
            1000000,
        );
    }
}

} // verus!
