use image_reply::artifact::interpret_response;
use image_reply::artifact::plan_writes;
use image_reply::artifact::u64_to_string;
use image_reply::artifact::error_record;
use image_reply::artifact::NamingContext;
use image_reply::artifact::PlannedWrite;
use image_reply::artifact::WriteData;
use image_reply::codec::decode_base64;
use image_reply::codec::encode_decode_round_trip;
use image_reply::codec::jpeg_data_uri;
use image_reply::mime::classify;
use image_reply::mime::extension_str;
use image_reply::mime::ImageExt;
use image_reply::normalize::normalize;
use image_reply::normalize::Candidate;
use image_reply::normalize::Choice;
use image_reply::normalize::ContentItem;
use image_reply::normalize::InlineData;
use image_reply::normalize::NormalizeError;
use image_reply::normalize::RawResponse;
use image_reply::normalize::ResponsePart;
use image_reply::normalize::SuccessBody;
use image_reply::normalize::Usage;

fn ctx() -> NamingContext {
    NamingContext {
        image_base: "generated_dog".to_string(),
        text_name: "dog_generation_response.txt".to_string(),
        error_name: "dog_generation_error.txt".to_string(),
    }
}

fn usage() -> Usage {
    Usage { prompt_tokens: 1, completion_tokens: 2, total_tokens: 3 }
}

#[test]
fn round_trip_bytes() {
    let bytes: Vec<u8> = vec![0, 255, 10, 77, 128];
    assert_eq!(encode_decode_round_trip(&bytes), bytes);
    let empty: Vec<u8> = vec![];
    assert_eq!(encode_decode_round_trip(&empty), empty);
}

#[test]
fn jpeg_uri_exact() {
    let uri = jpeg_data_uri(&[0, 0, 0]);
    assert_eq!(uri, "data:image/jpeg;base64,AAAA");
}

#[test]
fn decode_exact() {
    assert_eq!(decode_base64("AAAA").unwrap(), vec![0u8, 0, 0]);
    assert_eq!(decode_base64("AQIDBA==").unwrap(), vec![1u8, 2, 3, 4]);
    assert_eq!(decode_base64("").unwrap(), Vec::<u8>::new());
}

#[test]
fn decode_rejects_bad_char() {
    assert!(decode_base64("A!AA").is_err());
}

#[test]
fn decode_rejects_bad_length() {
    assert!(decode_base64("AAA").is_err());
}

#[test]
fn classify_tokens() {
    assert_eq!(classify("image/png"), ImageExt::Png);
    assert_eq!(classify("image/jpeg"), ImageExt::Jpg);
    assert_eq!(classify("image/jpg"), ImageExt::Jpg);
    assert_eq!(classify("image/gif"), ImageExt::Gif);
    assert_eq!(classify("image/webp"), ImageExt::Webp);
}

#[test]
fn classify_unrecognized_defaults_to_png() {
    assert_eq!(classify("application/octet-stream"), ImageExt::Png);
    assert_eq!(classify(""), ImageExt::Png);
}

#[test]
fn classify_priority_png_first() {
    assert_eq!(classify("image/jpegpng"), ImageExt::Png);
}

#[test]
fn classify_deterministic() {
    assert_eq!(classify("video/mp4"), classify("video/mp4"));
    assert_eq!(extension_str(classify("image/webp")), "webp");
}

#[test]
fn decimal_rendering() {
    assert_eq!(u64_to_string(0), "0");
    assert_eq!(u64_to_string(429), "429");
    assert_eq!(u64_to_string(1234567890123), "1234567890123");
}

#[test]
fn shape_a_text_only() {
    let body = SuccessBody::ShapeA {
        candidates: vec![Candidate {
            parts: vec![ResponsePart { text: Some("a dog".to_string()), inline_data: None }],
        }],
    };
    let n = normalize(&body).unwrap();
    assert_eq!(n.items.len(), 1);
    match &n.items[0] {
        ContentItem::Text { text } => assert_eq!(text, "a dog"),
        _ => panic!("expected a text item"),
    }
    assert!(n.skipped_parts.is_empty());
    let writes = plan_writes(&n.items, &ctx());
    assert_eq!(writes.len(), 1);
    assert_eq!(writes[0].filename, "dog_generation_response.txt");
    match &writes[0].data {
        WriteData::Text(t) => assert_eq!(t, "a dog"),
        _ => panic!("expected a text write"),
    }
}

#[test]
fn shape_a_inline_image() {
    let body = SuccessBody::ShapeA {
        candidates: vec![Candidate {
            parts: vec![ResponsePart {
                text: None,
                inline_data: Some(InlineData {
                    mime_type: "image/png".to_string(),
                    data: "AQIDBA==".to_string(),
                }),
            }],
        }],
    };
    let n = normalize(&body).unwrap();
    assert_eq!(n.items.len(), 1);
    match &n.items[0] {
        ContentItem::Image { mime_type, bytes } => {
            assert_eq!(mime_type, "image/png");
            assert_eq!(bytes, &vec![1u8, 2, 3, 4]);
        }
        _ => panic!("expected an image item"),
    }
    let writes = plan_writes(&n.items, &ctx());
    assert_eq!(writes.len(), 1);
    assert_eq!(writes[0].filename, "generated_dog_0.png");
    match &writes[0].data {
        WriteData::Bytes(b) => assert_eq!(b, &vec![1u8, 2, 3, 4]),
        _ => panic!("expected a bytes write"),
    }
}

#[test]
fn shape_a_bad_payload_drops_only_that_image() {
    let body = SuccessBody::ShapeA {
        candidates: vec![Candidate {
            parts: vec![
                ResponsePart {
                    text: None,
                    inline_data: Some(InlineData {
                        mime_type: "image/png".to_string(),
                        data: "!!!not base64!!!".to_string(),
                    }),
                },
                ResponsePart { text: Some("ok".to_string()), inline_data: None },
            ],
        }],
    };
    let n = normalize(&body).unwrap();
    assert_eq!(n.items.len(), 1);
    match &n.items[0] {
        ContentItem::Text { text } => assert_eq!(text, "ok"),
        _ => panic!("expected the sibling text item"),
    }
    assert_eq!(n.skipped_parts, vec![0]);
}

#[test]
fn shape_a_part_with_text_and_image_emits_both() {
    let body = SuccessBody::ShapeA {
        candidates: vec![Candidate {
            parts: vec![ResponsePart {
                text: Some("caption".to_string()),
                inline_data: Some(InlineData {
                    mime_type: "image/gif".to_string(),
                    data: "AAAA".to_string(),
                }),
            }],
        }],
    };
    let n = normalize(&body).unwrap();
    assert_eq!(n.items.len(), 2);
    assert!(matches!(&n.items[0], ContentItem::Image { .. }));
    assert!(matches!(&n.items[1], ContentItem::Text { .. }));
}

#[test]
fn shape_a_without_candidates_yields_nothing() {
    let body = SuccessBody::ShapeA { candidates: vec![] };
    let n = normalize(&body).unwrap();
    assert!(n.items.is_empty());
    assert!(n.skipped_parts.is_empty());
    let writes = plan_writes(&n.items, &ctx());
    assert!(writes.is_empty());
}

#[test]
fn shape_b_markdown_image() {
    let body = SuccessBody::ShapeB {
        choices: vec![Choice {
            content: "![image](data:image/jpeg;base64,AAAA)".to_string(),
        }],
        usage: usage(),
    };
    let n = normalize(&body).unwrap();
    assert_eq!(n.items.len(), 1);
    match &n.items[0] {
        ContentItem::Image { mime_type, bytes } => {
            assert_eq!(mime_type, "image/jpeg");
            assert_eq!(bytes, &vec![0u8, 0, 0]);
        }
        _ => panic!("expected an image item"),
    }
    let naming = NamingContext {
        image_base: "response".to_string(),
        text_name: "response.txt".to_string(),
        error_name: "error.txt".to_string(),
    };
    let writes = plan_writes(&n.items, &naming);
    assert_eq!(writes.len(), 1);
    assert_eq!(writes[0].filename, "response_0.jpg");
}

#[test]
fn shape_b_plain_text() {
    let body = SuccessBody::ShapeB {
        choices: vec![Choice { content: "hello world".to_string() }],
        usage: usage(),
    };
    let n = normalize(&body).unwrap();
    assert_eq!(n.items.len(), 1);
    match &n.items[0] {
        ContentItem::Text { text } => assert_eq!(text, "hello world"),
        _ => panic!("expected a text item"),
    }
}

#[test]
fn shape_b_bare_data_uri() {
    let body = SuccessBody::ShapeB {
        choices: vec![Choice { content: "data:image/png;base64,AQIDBA==".to_string() }],
        usage: usage(),
    };
    let n = normalize(&body).unwrap();
    assert_eq!(n.items.len(), 1);
    match &n.items[0] {
        ContentItem::Image { mime_type, bytes } => {
            assert_eq!(mime_type, "image/png");
            assert_eq!(bytes, &vec![1u8, 2, 3, 4]);
        }
        _ => panic!("expected an image item"),
    }
}

#[test]
fn shape_b_decode_failure_falls_back_to_text() {
    let content = "data:image/png;base64,AA".to_string();
    let body = SuccessBody::ShapeB {
        choices: vec![Choice { content: content.clone() }],
        usage: usage(),
    };
    let n = normalize(&body).unwrap();
    assert_eq!(n.items.len(), 1);
    match &n.items[0] {
        ContentItem::Text { text } => assert_eq!(text, &content),
        _ => panic!("expected the verbatim text item"),
    }
}

#[test]
fn shape_b_image_prefix_without_comma_is_text() {
    let content = "data:image/png".to_string();
    let body = SuccessBody::ShapeB {
        choices: vec![Choice { content: content.clone() }],
        usage: usage(),
    };
    let n = normalize(&body).unwrap();
    match &n.items[0] {
        ContentItem::Text { text } => assert_eq!(text, &content),
        _ => panic!("expected a text item"),
    }
}

#[test]
fn unrecognized_shape_is_an_error() {
    assert!(matches!(
        normalize(&SuccessBody::Unrecognized),
        Err(NormalizeError::UnsupportedShape)
    ));
}

#[test]
fn failure_writes_one_error_artifact() {
    let response = RawResponse::Failure {
        status: 429,
        body: "rate limited".to_string(),
        headers: None,
    };
    let plan = interpret_response(&response, &ctx()).unwrap();
    assert!(plan.skipped_parts.is_empty());
    assert_eq!(plan.writes.len(), 1);
    let PlannedWrite { filename, data } = &plan.writes[0];
    assert_eq!(filename, "dog_generation_error.txt");
    match data {
        WriteData::Text(t) => {
            assert_eq!(t, "Status: 429\nError: rate limited");
            assert!(t.contains("Status: 429"));
            assert!(t.contains("Error: rate limited"));
        }
        _ => panic!("expected a text write"),
    }
}

#[test]
fn error_record_with_headers() {
    let record = error_record(500, &Some("{\"retry\": \"1\"}".to_string()), "boom");
    assert_eq!(record, "Status: 500\nHeaders: {\"retry\": \"1\"}\nError: boom");
}

#[test]
fn interpret_success_plans_in_item_order() {
    let response = RawResponse::Success {
        body: SuccessBody::ShapeA {
            candidates: vec![Candidate {
                parts: vec![
                    ResponsePart {
                        text: Some("first".to_string()),
                        inline_data: Some(InlineData {
                            mime_type: "image/webp".to_string(),
                            data: "AAAA".to_string(),
                        }),
                    },
                    ResponsePart {
                        text: None,
                        inline_data: Some(InlineData {
                            mime_type: "unknown".to_string(),
                            data: "AQIDBA==".to_string(),
                        }),
                    },
                ],
            }],
        },
    };
    let plan = interpret_response(&response, &ctx()).unwrap();
    assert_eq!(plan.writes.len(), 3);
    assert_eq!(plan.writes[0].filename, "generated_dog_0.webp");
    assert_eq!(plan.writes[1].filename, "dog_generation_response.txt");
    assert_eq!(plan.writes[2].filename, "generated_dog_1.png");
    assert!(plan.skipped_parts.is_empty());
}

#[test]
fn shape_a_counts_match_parts() {
    let parts = vec![
        ResponsePart {
            text: Some("a".to_string()),
            inline_data: Some(InlineData {
                mime_type: "image/png".to_string(),
                data: "AAAA".to_string(),
            }),
        },
        ResponsePart { text: Some("b".to_string()), inline_data: None },
        ResponsePart {
            text: None,
            inline_data: Some(InlineData {
                mime_type: "image/gif".to_string(),
                data: "AQIDBA==".to_string(),
            }),
        },
    ];
    let body = SuccessBody::ShapeA { candidates: vec![Candidate { parts }] };
    let n = normalize(&body).unwrap();
    let texts = n.items.iter().filter(|i| matches!(i, ContentItem::Text { .. })).count();
    let images = n.items.iter().filter(|i| matches!(i, ContentItem::Image { .. })).count();
    assert_eq!(texts, 2);
    assert_eq!(images, 2);
}
