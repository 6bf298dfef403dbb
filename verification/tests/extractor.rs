use image_reply::extract::extract_image_from_markdown;

#[test]
fn extracts_simple_markdown_image() {
    let text = "![image](data:image/png;base64,AAAA)";
    let (mime, bytes) = extract_image_from_markdown(text).unwrap();
    assert_eq!(mime, "image/png");
    assert_eq!(bytes, vec![0u8, 0, 0]);
}

#[test]
fn extracts_from_surrounding_text() {
    let text = "before ![alt text](data:image/jpeg;base64,AQIDBA==) after";
    let (mime, bytes) = extract_image_from_markdown(text).unwrap();
    assert_eq!(mime, "image/jpeg");
    assert_eq!(bytes, vec![1u8, 2, 3, 4]);
}

#[test]
fn plain_text_yields_nothing() {
    assert!(extract_image_from_markdown("hello world").is_none());
    assert!(extract_image_from_markdown("").is_none());
    assert!(extract_image_from_markdown("data:image/png;base64,AAAA").is_none());
}

#[test]
fn bad_payload_is_swallowed() {
    // three payload characters: alphabet-valid but not a canonical encoding
    assert!(extract_image_from_markdown("![image](data:image/png;base64,AAA)").is_none());
}

#[test]
fn first_of_two_images_wins() {
    let text = "![a](data:image/gif;base64,/w==) ![b](data:image/png;base64,AAAA)";
    let (mime, bytes) = extract_image_from_markdown(text).unwrap();
    assert_eq!(mime, "image/gif");
    assert_eq!(bytes, vec![255u8]);
}

#[test]
fn newline_inside_brackets_blocks_the_match() {
    assert!(extract_image_from_markdown("![im\nage](data:image/png;base64,AAAA)").is_none());
}

#[test]
fn bracket_inside_body_still_matches() {
    let text = "![a]b](data:image/png;base64,AAAA)";
    let (mime, bytes) = extract_image_from_markdown(text).unwrap();
    assert_eq!(mime, "image/png");
    assert_eq!(bytes, vec![0u8, 0, 0]);
}

#[test]
fn mime_name_must_be_letters() {
    assert!(extract_image_from_markdown("![i](data:image/;base64,AAAA)").is_none());
    assert!(extract_image_from_markdown("![i](data:video/mp4;base64,AAAA)").is_none());
}
