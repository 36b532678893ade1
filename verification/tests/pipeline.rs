use keyence_collector::frame::{read_frame, write_frame, FrameError, MAX_PAYLOAD};
use keyence_collector::pipeline::{
    forwarded_notice, parent_message, process_input, received_notice, validate_bmp, BmpError, Input,
    Pipeline, PipelineAction, PipelineEvent,
};

#[test]
fn accepts_bmp_signature() {
    assert!(validate_bmp(b"BM\x00\x00").is_ok());
}

#[test]
fn rejects_non_bmp_data() {
    assert!(validate_bmp(b"not an image").is_err());
}

#[test]
fn signature_needs_both_letters() {
    assert!(validate_bmp(b"BM").is_ok());
    assert_eq!(validate_bmp(b""), Err(BmpError::NotBmp));
    assert_eq!(validate_bmp(b"B"), Err(BmpError::NotBmp));
    assert_eq!(validate_bmp(b"MB"), Err(BmpError::NotBmp));
    assert_eq!(validate_bmp(b"bm"), Err(BmpError::NotBmp));
    assert_eq!(BmpError::NotBmp.message(), "přijatá data nejsou BMP");
}

#[test]
fn frame_has_a_big_endian_length() {
    assert_eq!(write_frame(b"BM!"), [0, 0, 0, 0, 0, 0, 0, 3, b'B', b'M', b'!']);
    assert_eq!(write_frame(b""), [0; 8]);
    let long = vec![7_u8; 0x01_02_03];
    assert_eq!(write_frame(&long)[..8], (long.len() as u64).to_be_bytes());
}

#[test]
fn frame_is_read_back() {
    let mut bytes = write_frame(b"image");
    bytes.extend(write_frame(b"name"));
    let (payload, taken) = read_frame(&bytes).unwrap().unwrap();
    assert_eq!(payload, b"image");
    assert_eq!(taken, 13);
    let (payload, taken) = read_frame(&bytes[13..]).unwrap().unwrap();
    assert_eq!(payload, b"name");
    assert_eq!(taken, 12);
}

#[test]
fn partial_frame_is_awaited() {
    let bytes = write_frame(b"image");
    for n in 0..bytes.len() {
        assert_eq!(read_frame(&bytes[..n]), Ok(None));
    }
}

#[test]
fn oversized_frame_is_refused() {
    assert_eq!(read_frame(&MAX_PAYLOAD.to_be_bytes()), Ok(None));
    assert_eq!(read_frame(&(MAX_PAYLOAD + 1).to_be_bytes()), Err(FrameError::TooLarge));
    assert_eq!(read_frame(&[255; 8]), Err(FrameError::TooLarge));
    assert_eq!(read_frame(&[255; 7]), Ok(None));
    assert_eq!(FrameError::TooLarge.message(), "Collector poslal příliš velký payload");
}

#[test]
fn message_holds_the_image_then_the_name() {
    let mut expected = vec![0, 0, 0, 0, 0, 0, 0, 3];
    expected.extend(b"BM\x01");
    expected.extend([0, 0, 0, 0, 0, 0, 0, 7]);
    expected.extend("ž1.bmp".as_bytes());
    assert_eq!(parent_message(b"BM\x01", "ž1.bmp"), expected);
    let input = Input::Bmp { data: b"BM\x01".to_vec(), name: "ž1.bmp".to_string() };
    assert_eq!(process_input(&input), Ok(expected));
}

#[test]
fn failed_input_is_passed_over() {
    let inputs = [
        Input::Bmp { data: b"BM1".to_vec(), name: "1.bmp".to_string() },
        Input::Bmp { data: b"???".to_vec(), name: "2.bmp".to_string() },
        Input::Bmp { data: b"BM3".to_vec(), name: "3.bmp".to_string() },
    ];
    let results: Vec<_> = inputs.iter().map(process_input).collect();
    assert_eq!(results[0], Ok(parent_message(b"BM1", "1.bmp")));
    assert_eq!(results[1], Err(BmpError::NotBmp));
    assert_eq!(results[2], Ok(parent_message(b"BM3", "3.bmp")));
}

#[test]
fn pipeline_delivers_images_in_order() {
    let image = |text: &str| Input::Bmp { data: text.into(), name: format!("{}.bmp", text) };
    let mut pipeline = Pipeline::new();
    let mut sent = Vec::new();
    let mut notices = Vec::new();
    for (text, reached) in [("BM1", true), ("???", true), ("BM2", false), ("BM3", true)] {
        match pipeline.handle_event(PipelineEvent::Received { input: image(text) }) {
            PipelineAction::Send { notice, message } => {
                notices.push(notice);
                let event = if reached {
                    sent.push(message);
                    PipelineEvent::Sent
                } else {
                    PipelineEvent::NotSent { reason: "timed out".to_string() }
                };
                match pipeline.handle_event(event) {
                    PipelineAction::Announce { notice } => notices.push(notice),
                    PipelineAction::Report { notice } => notices.push(notice),
                    other => panic!("{:?}", other),
                }
            }
            PipelineAction::Report { notice } => notices.push(notice),
            other => panic!("{:?}", other),
        }
    }
    assert_eq!(sent, [parent_message(b"BM1", "BM1.bmp"), parent_message(b"BM3", "BM3.bmp")]);
    assert_eq!(
        notices,
        [
            "FTP STOR: přijat BMP BM1.bmp (3 B)",
            "Pipeline: předáno parent procesu (BMP 3 B, název BM1.bmp)",
            "Pipeline: přijatá data nejsou BMP",
            "FTP STOR: přijat BMP BM2.bmp (3 B)",
            "Pipeline: timed out",
            "FTP STOR: přijat BMP BM3.bmp (3 B)",
            "Pipeline: předáno parent procesu (BMP 3 B, název BM3.bmp)",
        ]
    );
    assert!(matches!(pipeline.handle_event(PipelineEvent::Sent), PipelineAction::Wait));
    assert!(matches!(pipeline.handle_event(PipelineEvent::Closed), PipelineAction::Stop));
}

#[test]
fn console_notices() {
    let input = Input::Bmp { data: b"BM\x01".to_vec(), name: "a.bmp".to_string() };
    assert_eq!(received_notice(&input), "FTP STOR: přijat BMP a.bmp (3 B)");
    assert_eq!(
        forwarded_notice(&input),
        "Pipeline: předáno parent procesu (BMP 3 B, název a.bmp)"
    );
}
