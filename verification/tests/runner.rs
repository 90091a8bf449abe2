//! The protocol between the engine and its runners.

use base64::engine::general_purpose::STANDARD_NO_PAD;
use base64::Engine;
use owl::dtype::Dtype;
use owl::runner::{
    ack_state, agreed_value, expect_ack, frame, frame_len, master_value, AckState, BroadcastError,
    DecodeGraphRunner, InitAck, NcclId, NcclIdError, NotCaptured, Reply, RunnerFailed,
    SerializableDType, ACK,
};
use owl::server::EmbeddingStrategy;
use owl::transfer::{PdConfig, PdMethod, PdRole};
use owl::turn::{TurnEvent, TurnSpec};
use std::sync::Arc;

#[test]
fn element_types_arrive() {
    let all = [
        Dtype::U8,
        Dtype::U32,
        Dtype::I64,
        Dtype::BF16,
        Dtype::F16,
        Dtype::F32,
        Dtype::F8E8M0,
    ];
    for dt in all {
        assert_eq!(SerializableDType::from_dtype(dt).to_dtype(), dt);
    }
    assert_eq!(SerializableDType::from_dtype(Dtype::F32).number(), 5);
    assert_eq!(SerializableDType::F8E4M3.number(), 8);
}

#[test]
fn ids_as_text() {
    let mut bytes = [0u8; 128];
    assert_eq!(NcclId(bytes).to_text(), "A".repeat(171));
    for (i, b) in bytes.iter_mut().enumerate() {
        *b = (i * 37 + 11) as u8;
    }
    let text = NcclId(bytes).to_text();
    assert_eq!(text, STANDARD_NO_PAD.encode(bytes));
    assert_eq!(&text[..8], "CzBVep/E");
    assert_eq!(NcclId::from_text(&text).unwrap().0, bytes);
}

#[test]
fn texts_that_are_no_ids() {
    let text = NcclId([7u8; 128]).to_text();
    assert_eq!(NcclId::from_text("AQID").err(), Some(NcclIdError::Length { got: 3 }));
    assert_eq!(NcclId::from_text("").err(), Some(NcclIdError::Length { got: 0 }));
    // Padding, another character, a length of no bytes, unused bits.
    assert_eq!(NcclId::from_text(&format!("{}=", text)).err(), Some(NcclIdError::NotBase64));
    assert_eq!(NcclId::from_text(&text.replace('B', "-")).err(), Some(NcclIdError::NotBase64));
    assert_eq!(NcclId::from_text("A").err(), Some(NcclIdError::NotBase64));
    assert_eq!(NcclId::from_text("AB").err(), Some(NcclIdError::NotBase64));
}

#[test]
fn ids_from_bytes() {
    assert_eq!(NcclId::from_bytes(&[9; 128]).unwrap().0, [9; 128]);
    assert_eq!(NcclId::from_bytes(&[9; 127]).err(), Some(NcclIdError::Length { got: 127 }));
}

#[test]
fn frames_are_read_back() {
    let payload: Vec<u8> = (0..300).map(|x| x as u8).collect();
    let framed = frame(&payload);
    assert_eq!(framed[..4], [44, 1, 0, 0]);
    let header: [u8; 4] = [framed[0], framed[1], framed[2], framed[3]];
    let n = frame_len(header);
    assert_eq!(&framed[4..4 + n], &payload[..]);
    assert_eq!(frame(&[]), vec![0, 0, 0, 0]);
    assert_eq!(frame_len([0, 0, 0, 1]), 1 << 24);
}

#[test]
fn acknowledgments() {
    assert_eq!(ack_state(Some(ACK)), AckState::Acknowledged);
    assert_eq!(ack_state(Some(0)), AckState::Unexpected);
    assert_eq!(ack_state(None), AckState::Missing);
    assert_eq!(expect_ack(Some(InitAck { ok: true }), 3), Ok(()));
    assert_eq!(expect_ack(Some(InitAck { ok: false }), 3), Err(RunnerFailed { rank: 3 }));
    assert_eq!(expect_ack(None, 4), Err(RunnerFailed { rank: 4 }));
}

#[test]
fn local_runners_must_agree() {
    let same = |a: &u32, b: &u32| a == b;
    assert!(matches!(agreed_value(vec![5, 5, 5], same), Ok(5)));
    assert!(matches!(agreed_value(vec![5, 5, 6], same), Err(BroadcastError::Disagree)));
    assert!(matches!(agreed_value(vec![], same), Err(BroadcastError::NoValues)));
}

#[test]
fn the_master_takes_the_first_value() {
    assert!(matches!(master_value(vec![1, 2], vec![Reply::Value(3)]), Ok(1)));
    assert!(matches!(master_value(vec![], vec![Reply::Value(3), Reply::Value(4)]), Ok(3)));
    assert!(matches!(
        master_value(vec![1], vec![Reply::Value(3), Reply::Error("lost".to_string()), Reply::Other]),
        Err(BroadcastError::Remote { at: 1, error }) if error == "lost"
    ));
    assert!(matches!(
        master_value(vec![1], vec![Reply::Other]),
        Err(BroadcastError::Unexpected { at: 0 })
    ));
    assert!(matches!(master_value(Vec::<u32>::new(), vec![]), Err(BroadcastError::NoValues)));
}

#[test]
fn decoding_by_graph() {
    let r = DecodeGraphRunner::from_capture("plan", true, Arc::new(7));
    assert_eq!(r.decode_step(&[1, 2, 3]), Ok((&"plan", 3)));
    assert_eq!(**r.adapter(), 7);
    let none = DecodeGraphRunner::from_capture("plan", false, Arc::new(7));
    assert_eq!(none.decode_step(&[1]), Err(NotCaptured));
}

#[test]
fn transfer_settings() {
    assert_eq!((PdRole::Client.number(), PdRole::Server.number()), (1, 2));
    assert_eq!((PdMethod::LocalIpc.number(), PdMethod::RemoteTcp.number()), (1, 2));
    let c = PdConfig { role: PdRole::Server, method: PdMethod::RemoteTcp, url: None };
    assert!(c.url.is_none() && c.role == PdRole::Server && c.method == PdMethod::RemoteTcp);
    assert_eq!(EmbeddingStrategy::default(), EmbeddingStrategy::Mean);
}

#[test]
fn turns_are_plain_data() {
    let spec = TurnSpec { prompt: "hi".to_string(), max_new: 4 };
    let event = TurnEvent::Token { turn: 1, delta: spec.prompt };
    assert!(matches!(event, TurnEvent::Token { turn: 1, delta } if delta == "hi"));
}
