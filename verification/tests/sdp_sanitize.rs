use bitwhip::sdp::sanitize_sdp;

fn s(text: &str) -> Vec<u8> {
    text.as_bytes().to_vec()
}

#[test]
fn drops_framerate_line() {
    let input = s("v=0\r\na=framerate:60\r\na=mid:0\r\n");
    assert_eq!(sanitize_sdp(&input), s("v=0\r\na=mid:0\r\n"));
}

#[test]
fn keeps_text_without_framerate() {
    let input = s("v=0\r\no=- 1 1 IN IP4 0.0.0.0\r\na=mid:0\r\n");
    assert_eq!(sanitize_sdp(&input), input);
}

#[test]
fn drops_every_framerate_line() {
    let input = s("a=framerate:60\na=x\na=framerate:30\na=y\n");
    assert_eq!(sanitize_sdp(&input), s("a=x\na=y\n"));
}

#[test]
fn drops_framerate_final_line_without_newline() {
    let input = s("v=0\na=framerate:60");
    assert_eq!(sanitize_sdp(&input), s("v=0\n"));
}

#[test]
fn keeps_prefix_without_colon() {
    // Only the attribute form `a=framerate:` is stripped.
    let input = s("a=framerates\na=framerate\n");
    assert_eq!(sanitize_sdp(&input), input);
}

#[test]
fn empty_input_stays_empty() {
    assert_eq!(sanitize_sdp(&Vec::new()), Vec::<u8>::new());
}
