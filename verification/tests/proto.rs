use kulua::proto::codec::{
    decode_media_datagram, encode_media_datagram, media_datagrams, MediaFragment, MediaReassembler,
    MEDIA_FLAG_KEYFRAME, MEDIA_HDR_LEN, MEDIA_OPEN_TOTAL,
};
use kulua::proto::reliable::{ReliableReceiver, ReliableSender, WINDOW};

fn decode_all(bufs: &[Vec<u8>]) -> Vec<MediaFragment<'_>> {
    bufs.iter()
        .map(|b| decode_media_datagram(b).unwrap())
        .collect()
}

#[test]
fn media_datagrams_roundtrip() {
    let data: Vec<u8> = (0..2500).map(|i| (i % 251) as u8).collect();
    let bufs = media_datagrams(7, 42, 11, 123, 9, MEDIA_FLAG_KEYFRAME, &data);
    let frags = decode_all(&bufs);
    assert!(frags.len() > 1);
    let mut reassembler = MediaReassembler::new();
    let mut got = None;
    for f in &frags {
        if let Some(m) = reassembler.push(f, 0) {
            got = Some(m);
        }
    }
    let m = got.expect("应重装完成");
    assert_eq!(m.data, data);
    assert_eq!(m.pts, 123);
    assert_eq!(m.revision, 9, "分片头必须携带音频代次");
    assert_eq!(m.flags, MEDIA_FLAG_KEYFRAME);
    assert!(frags.iter().all(|f| f.client_id == 7 && f.seq == 42));
}

#[test]
fn open_datagram_is_rejected_by_reassembler() {
    let mut wire = Vec::new();
    encode_media_datagram(
        &MediaFragment {
            client_id: 3,
            msg_id: 0,
            seq: 0,
            frag: 0,
            frag_total: MEDIA_OPEN_TOTAL,
            pts: 0,
            revision: 0,
            flags: 0,
            payload: &[],
        },
        &mut wire,
    );
    assert_eq!(wire.len(), MEDIA_HDR_LEN);
    let f = decode_media_datagram(&wire).unwrap();
    assert_eq!(f.frag_total, MEDIA_OPEN_TOTAL);
    let mut r = MediaReassembler::new();
    assert!(r.push(&f, 0).is_none());
}

#[test]
fn media_dedup_stale_seq() {
    let bufs = media_datagrams(1, 5, 0, 0, 0, 0, &[1u8, 2, 3]);
    let frags = decode_all(&bufs);
    assert_eq!(frags.len(), 1);
    let mut r = MediaReassembler::new();
    assert!(r.push(&frags[0], 0).is_some());
    assert!(r.push(&frags[0], 0).is_none());
}

#[test]
fn fragmented_interleaved_message_ordering() {
    let da: Vec<u8> = vec![9; 2500];
    let db: Vec<u8> = vec![8; 2500];
    let bufs_a = media_datagrams(1, 10, 1, 0, 0, 0, &da);
    let bufs_b = media_datagrams(1, 11, 2, 0, 0, 0, &db);
    let fa = decode_all(&bufs_a);
    let fb = decode_all(&bufs_b);
    let mut r = MediaReassembler::new();
    let mut got = Vec::new();
    assert_eq!(fa.len(), 3);
    assert_eq!(fb.len(), 3);
    got.extend(r.push(&fa[0], 0).iter().cloned());
    got.extend(r.push(&fb[0], 0).iter().cloned());
    got.extend(r.push(&fa[1], 0).iter().cloned());
    got.extend(r.push(&fb[1], 0).iter().cloned());
    got.extend(r.push(&fa[2], 0).iter().cloned());
    got.extend(r.push(&fb[2], 0).iter().cloned());
    assert_eq!(got.len(), 2);
    assert_eq!(got[0].data, da);
    assert_eq!(got[1].data, db);
}

#[test]
fn lost_fragment_cleaned_by_sweep() {
    let data: Vec<u8> = vec![1; 2500];
    let bufs = media_datagrams(1, 1, 5, 0, 0, 0, &data);
    let frags = decode_all(&bufs);
    assert!(frags.len() >= 2);
    let mut r = MediaReassembler::new();
    r.push(&frags[0], 0);
    r.push(&frags[2], 0);
    assert_eq!(r.pending(), 1);
    r.sweep(10_000_000, 1_000_000);
    assert_eq!(r.pending(), 0);
}

/// The golden bytes were produced by the encoder on the phone.
#[test]
fn media_header_layout_matches_java_encoder() {
    let hex = "010203041112131405060708000100020a0b0c0d0e0f101101020304050607080341424344";
    let wire: Vec<u8> = (0..hex.len() / 2)
        .map(|i| u8::from_str_radix(&hex[i * 2..i * 2 + 2], 16).unwrap())
        .collect();
    assert_eq!(
        wire.len(),
        MEDIA_HDR_LEN + 4,
        "头长必须与 Java HEADER_SIZE 一致"
    );
    let f = decode_media_datagram(&wire).expect("Java 产出的字节必须能被 Rust 解析");
    assert_eq!(f.client_id, 0x0102_0304);
    assert_eq!(f.msg_id, 0x1112_1314);
    assert_eq!(f.seq, 0x0506_0708);
    assert_eq!(f.frag, 1);
    assert_eq!(f.frag_total, 2);
    assert_eq!(f.pts, 0x0A0B_0C0D_0E0F_1011);
    assert_eq!(f.revision, 0x0102_0304_0506_0708);
    assert_eq!(f.flags, 3);
    assert_eq!(f.payload, b"ABCD");
}

#[test]
fn short_datagram_rejected() {
    assert!(decode_media_datagram(&[0u8; 32]).is_none());
    assert!(decode_media_datagram(&[0u8; 33]).is_some());
}

#[test]
fn sender_receiver_single_roundtrip() {
    let mut s = ReliableSender::new();
    let mut r = ReliableReceiver::new();
    let payload = b"hello clipboard".to_vec();
    let frames = s.send_ctrl_bytes(1, &payload, 0);
    assert_eq!(frames.len(), 1);
    let mut got = Vec::new();
    for f in &frames {
        got.extend(r.on_frame(f));
    }
    assert_eq!(got, vec![payload]);
    let ack = r.ack_seq();
    s.on_ack(ack);
    assert_eq!(s.pending(), 0);
}

#[test]
fn sender_receiver_multifragment_roundtrip() {
    let mut s = ReliableSender::new();
    let mut r = ReliableReceiver::new();
    let payload = vec![7u8; 5000];
    let frames = s.send_ctrl_bytes(3, &payload, 0);
    assert!(frames.len() > 1);
    let mut got = Vec::new();
    for f in &frames {
        got.extend(r.on_frame(f));
    }
    assert_eq!(got, vec![payload]);
}

#[test]
fn receiver_waits_for_retransmit() {
    let mut s = ReliableSender::new();
    let mut r = ReliableReceiver::new();
    let payload = vec![1u8; 5000];
    let frames = s.send_ctrl_bytes(5, &payload, 0);
    let mut got = Vec::new();
    for f in frames.iter().skip(1) {
        got.extend(r.on_frame(f));
    }
    assert!(got.is_empty(), "首个分片缺失不应投递");
    got.extend(r.on_frame(&frames[0]));
    assert_eq!(got, vec![payload]);
}

#[test]
fn ack_releases_window() {
    let mut s = ReliableSender::new();
    let mut r = ReliableReceiver::new();
    let frames = s.send_ctrl_bytes(1, b"msg1", 0);
    let frames2 = s.send_ctrl_bytes(2, b"msg2", 0);
    let mut got = Vec::new();
    for f in frames.iter().chain(frames2.iter()) {
        got.extend(r.on_frame(f));
    }
    assert_eq!(got.len(), 2);
    s.on_ack(r.ack_seq());
    assert_eq!(s.pending(), 0);
}

#[test]
fn out_of_order_control_is_buffered_then_delivered() {
    let mut s = ReliableSender::new();
    let mut r = ReliableReceiver::new();
    let f1 = s.send_ctrl_bytes(1, b"first", 0);
    let f2 = s.send_ctrl_bytes(2, b"second", 0);
    let mut got = Vec::new();
    got.extend(r.on_frame(&f2[0]));
    assert!(got.is_empty(), "乱序不应提前投递");
    got.extend(r.on_frame(&f1[0]));
    assert_eq!(got.len(), 2);
    assert_eq!(&got[0], b"first");
    assert_eq!(&got[1], b"second");
}

#[test]
fn unreceived_fragments_are_kept() {
    let mut tx = ReliableSender::new();
    let mut rx = ReliableReceiver::new();
    let long: Vec<u8> = (0..3000u32).map(|i| (i % 251) as u8).collect();
    let a = tx.send_ctrl_bytes(1, b"first", 0);
    let b = tx.send_ctrl_bytes(2, &long, 0);
    let c = tx.send_ctrl_bytes(3, b"third", 0);
    assert!(b.len() > 1);
    let all = a.len() + b.len() + c.len();
    assert_eq!(tx.pending(), all);
    assert!(rx.on_frame(&c[0]).is_empty());
    assert!(rx.on_frame(&b[1]).is_empty());
    assert_eq!(rx.on_frame(&a[0]), vec![b"first".to_vec()]);
    tx.on_ack(rx.ack_seq());
    assert_eq!(tx.pending(), all - a.len());
    let mut got = Vec::new();
    for f in tx.due_timeouts(200_000_000) {
        got.extend(rx.on_frame(&f));
    }
    assert_eq!(got, vec![long, b"third".to_vec()]);
    tx.on_ack(rx.ack_seq());
    assert_eq!(tx.pending(), 0);
}

#[test]
fn window_is_limited() {
    let mut tx = ReliableSender::new();
    let mut rx = ReliableReceiver::new();
    let long: Vec<u8> = (0..39_600u32).map(|i| (i % 251) as u8).collect();
    let first = tx.send_ctrl_bytes(1, &long, 0);
    assert_eq!((first.len(), tx.pending(), tx.held_back()), (WINDOW, 32, 1));
    assert!(tx.send_ctrl_bytes(2, b"later", 0).is_empty());
    assert_eq!((tx.pending(), tx.held_back()), (32, 2));
    assert_eq!(first[31].seq, 32);

    // Without room nothing goes out; what is overdue is sent again.
    assert!(tx.due_timeouts(100_000_000).is_empty());
    assert_eq!(tx.due_timeouts(200_000_000).len(), 32);

    // The receiver acknowledges whole messages only, so room comes from elsewhere here.
    for f in &first {
        assert!(rx.on_frame(f).is_empty());
    }
    tx.on_ack(2);
    assert_eq!((tx.pending(), tx.held_back()), (30, 2));
    let rest = tx.due_timeouts(210_000_000);
    assert_eq!((rest.len(), tx.pending(), tx.held_back()), (2, 32, 0));
    assert_eq!((rest[0].seq, rest[1].seq), (33, 34));
    let mut got = Vec::new();
    for f in &rest {
        got.extend(rx.on_frame(f));
    }
    assert_eq!(got, vec![long, b"later".to_vec()]);
    tx.on_ack(rx.ack_seq());
    assert_eq!(tx.pending(), 0);
}

#[test]
fn message_comes_out_once() {
    let data: Vec<u8> = (0..3000u32).map(|i| (i % 251) as u8).collect();
    let mine = media_datagrams(7, 5, 11, 123, 9, 0, &data);
    let other = media_datagrams(7, 4, 12, 100, 9, 0, b"other");
    let m = decode_all(&mine);
    let o = decode_all(&other);
    let mut r = MediaReassembler::new();
    assert!(r.push(&m[2], 0).is_none());
    assert!(r.push(&m[2], 1).is_none());
    assert_eq!(r.push(&o[0], 2).unwrap().data, b"other");
    assert!(r.push(&m[0], 3).is_none());
    assert!(r.push(&m[0], 4).is_none());
    let got = r.push(&m[1], 5).unwrap();
    assert_eq!((got.data, got.pts, got.revision), (data, 123, 9));
    for f in &m {
        assert!(r.push(f, 6).is_none());
    }
    assert_eq!(r.pending(), 0);
}

#[test]
fn datagram_without_a_place_is_dropped() {
    let bufs = media_datagrams(7, 5, 11, 123, 9, 0, &[1u8; 3000]);
    let whole = decode_all(&bufs);
    let mut r = MediaReassembler::new();
    r.push(&whole[0], 0);
    let mut open = whole[1].clone();
    open.frag = 40;
    open.frag_total = MEDIA_OPEN_TOTAL;
    assert!(r.fits(&open));
    assert!(r.push(&open, 0).is_none());
    let mut beyond = whole[1].clone();
    beyond.frag = 3;
    assert!(r.fits(&beyond));
    assert!(r.push(&beyond, 0).is_none());
    let mut wider = whole[1].clone();
    wider.frag = 4;
    wider.frag_total = 9;
    assert!(!r.fits(&wider));
    assert_eq!(r.pending(), 1);
}
