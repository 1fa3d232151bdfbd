use wifi_monitor::element::{ElementWalker, InformationElement};

fn frame_with(elements: &[u8]) -> Vec<u8> {
    let mut frame = vec![0u8; 36];
    frame[0] = 0x80;
    frame.extend_from_slice(elements);
    frame
}

fn collect(frame: &[u8]) -> Vec<(u8, u8, Vec<u8>)> {
    let mut walker = ElementWalker::new(frame);
    let mut found = Vec::new();
    while let Some(element) = walker.next() {
        found.push((element.id(), element.length(), element.payload().to_vec()));
    }
    found
}

#[test]
fn walker_yields_elements_in_order() {
    let frame = frame_with(&[0, 4, b't', b'e', b's', b't', 3, 1, 6, 48, 2, 1, 0]);
    assert_eq!(
        collect(&frame),
        vec![(0, 4, b"test".to_vec()), (3, 1, vec![6]), (48, 2, vec![1, 0])]
    );
}

#[test]
fn walker_starts_at_offset_36() {
    let mut frame = frame_with(&[7, 1, 9]);
    frame[30] = 3;
    frame[31] = 1;
    frame[32] = 6;
    assert_eq!(collect(&frame), vec![(7, 1, vec![9])]);
}

#[test]
fn frames_up_to_37_bytes_have_no_elements() {
    for len in 0usize..38 {
        let frame = vec![1u8; len];
        assert!(collect(&frame).is_empty());
    }
}

#[test]
fn element_of_length_zero_is_yielded() {
    let frame = frame_with(&[0, 0]);
    assert_eq!(collect(&frame), vec![(0, 0, vec![])]);
}

#[test]
fn element_may_end_with_the_frame() {
    let frame = frame_with(&[5, 3, 1, 2, 3]);
    assert_eq!(collect(&frame), vec![(5, 3, vec![1, 2, 3])]);
}

#[test]
fn truncated_tail_is_dropped() {
    let frame = frame_with(&[3, 1, 6, 0, 4, b't', b'e']);
    assert_eq!(collect(&frame), vec![(3, 1, vec![6])]);
}

#[test]
fn lone_id_byte_at_the_end_is_dropped() {
    let frame = frame_with(&[3, 1, 6, 48]);
    assert_eq!(collect(&frame), vec![(3, 1, vec![6])]);
}

#[test]
fn walker_does_not_skip_a_truncated_element() {
    let frame = frame_with(&[0, 200, 3, 1, 6]);
    assert!(collect(&frame).is_empty());
}

#[test]
fn longest_payload_is_255_bytes() {
    let mut elements = vec![221u8, 255];
    elements.extend(std::iter::repeat(0xAB).take(255));
    elements.extend_from_slice(&[3, 1, 11]);
    let frame = frame_with(&elements);
    let found = collect(&frame);
    assert_eq!(found.len(), 2);
    assert_eq!(found[0].0, 221);
    assert_eq!(found[0].1, 255);
    assert_eq!(found[0].2, vec![0xAB; 255]);
    assert_eq!(found[1], (3, 1, vec![11]));
}

#[test]
fn stopped_walker_yields_nothing_more() {
    let frame = frame_with(&[3, 1, 6, 0, 9, 1]);
    let mut walker = ElementWalker::new(&frame);
    assert!(walker.next().is_some());
    assert!(walker.next().is_none());
    assert!(walker.next().is_none());
    assert!(walker.next().is_none());
}

#[test]
fn length_is_that_of_the_payload() {
    let frame = frame_with(&[1, 2, 0x82, 0x84, 2, 0, 9, 5, 1, 2, 3, 4, 5]);
    let mut walker = ElementWalker::new(&frame);
    while let Some(element) = walker.next() {
        assert_eq!(usize::from(element.length()), element.payload().len());
    }
}

#[test]
fn cutting_a_frame_keeps_the_first_elements() {
    let frame = frame_with(&[0, 4, b't', b'e', b's', b't', 3, 1, 6, 48, 2, 1, 0]);
    let whole = collect(&frame);
    for cut in 0..=frame.len() {
        let part = collect(&frame[..cut]);
        assert!(part.len() <= whole.len());
        assert_eq!(part[..], whole[..part.len()]);
    }
}

#[test]
fn element_of_given_id_and_payload() {
    let element = InformationElement::new(3, &[6]).unwrap();
    assert_eq!(element.id(), 3);
    assert_eq!(element.length(), 1);
    assert_eq!(element.payload(), &[6]);
}

#[test]
fn element_payload_is_at_most_255_bytes() {
    assert!(InformationElement::new(0, &[7u8; 255]).is_some());
    assert!(InformationElement::new(0, &[7u8; 256]).is_none());
    assert_eq!(InformationElement::new(0, &[7u8; 255]).unwrap().length(), 255);
}
