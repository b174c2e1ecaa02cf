use nodemgr::download::{
    accepted_status, PartialRangeIter, Transfer, TransferAction, TransferEvent, CHUNK_SIZE,
};

fn drain(mut it: PartialRangeIter) -> Vec<String> {
    let mut out = Vec::new();
    while let Some(h) = it.next() {
        out.push(h);
    }
    out
}

#[test]
fn ranges_in_chunks() {
    let it = PartialRangeIter::new(0, 9, 4);
    assert_eq!(drain(it), vec!["bytes=0-3", "bytes=4-7", "bytes=8-9"]);
}

#[test]
fn ranges_single_byte() {
    assert_eq!(drain(PartialRangeIter::new(5, 5, 100)), vec!["bytes=5-5"]);
}

#[test]
fn ranges_none_when_done() {
    assert!(drain(PartialRangeIter::new(10, 9, 4)).is_empty());
    let mut it = PartialRangeIter::new(3, 2, 1);
    assert_eq!(it.next(), None);
    assert_eq!(it.start, 3);
}

#[test]
fn ranges_cover_exactly() {
    let it = PartialRangeIter::new(7, 1_000_000, CHUNK_SIZE);
    let hs = drain(it);
    let mut expect = 7u64;
    for h in &hs {
        let body = h.strip_prefix("bytes=").unwrap();
        let (a, b) = body.split_once('-').unwrap();
        let (a, b): (u64, u64) = (a.parse().unwrap(), b.parse().unwrap());
        assert_eq!(a, expect);
        assert!(b >= a && b - a < CHUNK_SIZE as u64);
        expect = b + 1;
    }
    assert_eq!(expect, 1_000_001);
    assert_eq!(hs.len(), 3);
}

#[test]
fn ranges_near_limit() {
    let mut it = PartialRangeIter::new(u64::MAX - 3, u64::MAX - 1, 2);
    assert_eq!(it.next().unwrap(), format!("bytes={}-{}", u64::MAX - 3, u64::MAX - 2));
    assert_eq!(it.next().unwrap(), format!("bytes={}-{}", u64::MAX - 1, u64::MAX - 1));
    assert_eq!(it.next(), None);
}

#[test]
fn status_rule() {
    assert!(accepted_status(200));
    assert!(accepted_status(206));
    assert!(!accepted_status(404));
    assert!(!accepted_status(416));
}

fn expect_get(a: &TransferAction, h: &str) {
    match a {
        TransferAction::SendGet(x) => assert_eq!(x, h),
        other => panic!("unexpected action {:?}", other),
    }
}

#[test]
fn transfer_whole_file() {
    let (s, a) = Transfer::begin();
    assert!(matches!(a, TransferAction::SendHead));
    let (s, a) = s.step(TransferEvent::HeadReplied { content_length: Some(500000), file_len: 0 });
    expect_get(&a, "bytes=0-409598");
    let (s, a) = s.step(TransferEvent::GetReplied { status: 206 });
    assert!(matches!(a, TransferAction::CopyBody));
    let (s, a) = s.step(TransferEvent::Copied);
    expect_get(&a, "bytes=409599-499999");
    let (s, a) = s.step(TransferEvent::GetReplied { status: 200 });
    assert!(matches!(a, TransferAction::CopyBody));
    let (s, a) = s.step(TransferEvent::Copied);
    assert!(matches!(a, TransferAction::Finish(Ok(()))));
    assert_eq!(s, Transfer::Finished);
}

#[test]
fn transfer_resumes_from_file_length() {
    let (s, _) = Transfer::begin();
    let (_, a) = s.step(TransferEvent::HeadReplied { content_length: Some(100), file_len: 40 });
    expect_get(&a, "bytes=40-99");
}

#[test]
fn transfer_already_complete() {
    let (s, _) = Transfer::begin();
    let (s, a) = s.step(TransferEvent::HeadReplied { content_length: Some(100), file_len: 100 });
    assert!(matches!(a, TransferAction::Finish(Ok(()))));
    assert_eq!(s, Transfer::Finished);
}

#[test]
fn transfer_errors() {
    let (s, _) = Transfer::begin();
    let (_, a) = s.step(TransferEvent::HeadReplied { content_length: None, file_len: 0 });
    assert!(matches!(a, TransferAction::Finish(Err(ref m)) if m == "No Content Length"));
    let (_, a) = s.step(TransferEvent::HeadFailed("offline".to_string()));
    assert!(matches!(a, TransferAction::Finish(Err(ref m)) if m == "offline"));
    let (r, _) = s.step(TransferEvent::HeadReplied { content_length: Some(10), file_len: 0 });
    let (_, a) = r.step(TransferEvent::GetReplied { status: 404 });
    assert!(matches!(a, TransferAction::Finish(Err(ref m)) if m == "error_status_code"));
    let (_, a) = r.step(TransferEvent::GetFailed("reset".to_string()));
    assert!(matches!(a, TransferAction::Finish(Err(ref m)) if m == "reset"));
    let (c, _) = r.step(TransferEvent::GetReplied { status: 200 });
    let (_, a) = c.step(TransferEvent::CopyFailed("disk full".to_string()));
    assert!(matches!(a, TransferAction::Finish(Err(ref m)) if m == "disk full"));
}

#[test]
fn transfer_awaiting() {
    let (s, _) = Transfer::begin();
    assert!(s.awaiting(&TransferEvent::HeadFailed(String::new())));
    assert!(!s.awaiting(&TransferEvent::Copied));
    assert!(!s.awaiting(&TransferEvent::HeadReplied { content_length: Some(0), file_len: 0 }));
    assert!(!Transfer::Finished.awaiting(&TransferEvent::Copied));
}

#[test]
fn ranges_up_to_the_last_byte_number() {
    let mut it = PartialRangeIter::new(1, u64::MAX, 4);
    assert_eq!(it.next().unwrap(), "bytes=1-4");
    assert_eq!(it.start, 5);
}

#[test]
fn ranges_count_and_shape() {
    for (start, end, size) in [(0u64, 9u64, 4u32), (3, 3, 1), (10, 9, 5), (0, 99, 10), (5, 17, 7)] {
        let hs = drain(PartialRangeIter::new(start, end, size));
        let n = if start <= end { (end - start + 1 + size as u64 - 1) / size as u64 } else { 0 };
        assert_eq!(hs.len() as u64, n);
        for (i, h) in hs.iter().enumerate() {
            let a = start + i as u64 * size as u64;
            let b = std::cmp::min(start + (i as u64 + 1) * size as u64, end + 1) - 1;
            assert_eq!(h, &format!("bytes={}-{}", a, b));
        }
    }
}
