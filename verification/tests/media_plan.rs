use bitwhip::media::{
    find_h264, plan_write, rebase_checked, rebase_to_clock, CodecInfo, CodecKind,
    H264_PINNED_PROFILE,
};

fn p(kind: CodecKind, pt: u8, clock_rate: u32, plid: Option<u32>) -> CodecInfo {
    CodecInfo { kind, pt, clock_rate, profile_level_id: plid }
}

#[test]
fn rebase_exact_values() {
    // One second at the H.264 clock is 90 000 ticks.
    assert_eq!(rebase_to_clock(1_000_000, 90_000), 90_000);
    // 16.67 ms frames: 16 670 us -> 1500 ticks (floor of 1500.3).
    assert_eq!(rebase_to_clock(16_670, 90_000), 1500);
    assert_eq!(rebase_to_clock(0, 90_000), 0);
    assert_eq!(rebase_to_clock(1, 90_000), 0);
}

#[test]
fn rebase_checked_reports_overflow() {
    assert_eq!(rebase_checked(1_000_000, 90_000), Some(90_000));
    assert_eq!(rebase_checked(u64::MAX, 4_000_000), None);
}

#[test]
fn find_pins_h264_profile() {
    let params = vec![
        p(CodecKind::Vp8, 96, 90_000, None),
        p(CodecKind::H264, 97, 90_000, Some(0x64001F)),
        p(CodecKind::H264, 102, 90_000, Some(H264_PINNED_PROFILE)),
        p(CodecKind::H264, 104, 90_000, Some(0x42001F)),
    ];
    let found = find_h264(&params).expect("pinned profile present");
    assert_eq!(found.pt, 102);
    assert_eq!(found.profile_level_id, Some(H264_PINNED_PROFILE));
}

#[test]
fn find_fails_without_pinned_profile() {
    let params = vec![
        p(CodecKind::Vp9, 98, 90_000, None),
        p(CodecKind::H264, 97, 90_000, Some(0x64001F)),
    ];
    assert!(find_h264(&params).is_none());
}

#[test]
fn planned_media_times_increase_with_same_pt() {
    // Sixty items at 16.67 ms intervals over one second.
    let params = vec![p(CodecKind::H264, 102, 90_000, Some(H264_PINNED_PROFILE))];
    let mut last_time: Option<u64> = None;
    for i in 0..60u64 {
        let pts_us = i * 16_667;
        let plan = plan_write(&params, pts_us).expect("pinned profile present");
        assert_eq!(plan.pt, 102);
        assert_eq!(plan.clock_rate, 90_000);
        if let Some(prev) = last_time {
            assert!(plan.rtp_time > prev, "media time must increase");
        }
        last_time = Some(plan.rtp_time);
    }
    // 16 667 us at 90 kHz is 1500.03 ticks: the second frame sits at 1500.
    assert_eq!(plan_write(&params, 16_667).unwrap().rtp_time, 1500);
}
