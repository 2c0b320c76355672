use circuitchat::protocol::{
    encode_accept, encode_cancel, encode_chunk, encode_delivered, encode_done, encode_offer,
    encode_reject, encode_text, encode_typing_start, encode_typing_stop, parse_message,
    ParsedMessage,
};

#[test]
fn control_messages_have_exact_bytes() {
    assert_eq!(encode_typing_start(), vec![0x00, 0x07]);
    assert_eq!(encode_typing_stop(), vec![0x00, 0x08]);
    assert_eq!(encode_delivered(), vec![0x00, 0x09]);
    assert_eq!(encode_accept(), vec![0x00, 0x05]);
    assert_eq!(encode_reject(), vec![0x00, 0x06]);
    assert_eq!(encode_done(), vec![0x00, b'D']);
    assert_eq!(encode_cancel(), vec![0x00, b'X']);
    assert_eq!(encode_chunk(&[1, 2, 3]), vec![0x00, b'C', 1, 2, 3]);
}

#[test]
fn offer_bytes_are_tag_size_and_name() {
    let b = encode_offer("x.txt", 258);
    assert_eq!(b, vec![0x00, b'F', 0, 0, 0, 0, 0, 0, 1, 2, b'x', b'.', b't', b'x', b't']);
}

#[test]
fn every_control_message_decodes_back() {
    assert_eq!(parse_message(&encode_typing_start()), ParsedMessage::TypingStart);
    assert_eq!(parse_message(&encode_typing_stop()), ParsedMessage::TypingStop);
    assert_eq!(parse_message(&encode_delivered()), ParsedMessage::Delivered);
    assert_eq!(parse_message(&encode_accept()), ParsedMessage::FileAccept);
    assert_eq!(parse_message(&encode_reject()), ParsedMessage::FileReject);
    assert_eq!(parse_message(&encode_done()), ParsedMessage::FileDone);
    assert_eq!(parse_message(&encode_cancel()), ParsedMessage::FileCancel);
    assert_eq!(parse_message(&encode_chunk(&[9, 8, 7])), ParsedMessage::FileChunk(vec![9, 8, 7]));
    assert_eq!(parse_message(&encode_chunk(&[])), ParsedMessage::FileChunk(vec![]));
    assert_eq!(
        parse_message(&encode_offer("résumé.pdf", u64::MAX)),
        ParsedMessage::FileOffer { name: "résumé.pdf".to_string(), size: u64::MAX }
    );
    assert_eq!(
        parse_message(&encode_offer("", 0)),
        ParsedMessage::FileOffer { name: String::new(), size: 0 }
    );
}

#[test]
fn text_decodes_back() {
    assert_eq!(parse_message(&encode_text("hello")), ParsedMessage::Text("hello".to_string()));
    assert_eq!(parse_message(&encode_text("")), ParsedMessage::Text(String::new()));
    assert_eq!(parse_message(&encode_text("é")), ParsedMessage::Text("é".to_string()));
    assert_eq!(parse_message(b"F"), ParsedMessage::Text("F".to_string()));
}

#[test]
fn short_offer_is_text() {
    let b = vec![0x00, b'F', 0, 0, 0, 0, 0, 0, 1];
    assert_eq!(parse_message(&b), ParsedMessage::Text("\u{0}F\u{0}\u{0}\u{0}\u{0}\u{0}\u{0}\u{1}".to_string()));
}

#[test]
fn unknown_tag_and_lone_prefix_are_text() {
    assert_eq!(parse_message(&[0x00, b'Z']), ParsedMessage::Text("\u{0}Z".to_string()));
    assert_eq!(parse_message(&[0x00]), ParsedMessage::Text("\u{0}".to_string()));
}

#[test]
fn invalid_utf8_is_replaced() {
    assert_eq!(parse_message(&[b'a', 0xff, b'b']), ParsedMessage::Text("a\u{FFFD}b".to_string()));
    let mut offer = encode_offer("", 5);
    offer.push(0xff);
    assert_eq!(
        parse_message(&offer),
        ParsedMessage::FileOffer { name: "\u{FFFD}".to_string(), size: 5 }
    );
}
