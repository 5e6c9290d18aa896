use stream_fusion::consumer::{Consumer, ConsumerExt};
use stream_fusion::step::Step;
use stream_fusion::stream::ext::StreamExt;
use stream_fusion::stream::{IntoFusion, Stream};

#[test]
fn fused_chain_equals_sequential_iterator() {
    let source: Vec<i32> = (0..2048).collect();
    let n = source
        .into_fusion()
        .step_by(2)
        .map(|i| i + 1)
        .filter(|i| *i > 512)
        .fold(0, |acc, item| acc + item)
        .yield_by(32)
        .drive();
    let expect = (0..2048)
        .step_by(2)
        .map(|i| i + 1)
        .filter(|i| *i > 512)
        .fold(0, |acc, item| acc + item);
    assert_eq!(n, expect);
}

#[test]
fn slice_source_copied() {
    let data = [1u8, 2, 3];
    let mut s = data[..].into_fusion().copied();
    assert!(matches!(s.poll_next(), Step::Ready(1)));
    assert!(matches!(s.poll_next(), Step::Ready(2)));
    assert!(matches!(s.poll_next(), Step::Ready(3)));
    assert!(matches!(s.poll_next(), Step::Done));
    let mut c = data[..].into_fusion().cloned().count();
    let mut out = None;
    while out.is_none() {
        out = c.poll_consume();
    }
    assert_eq!(out, Some(3));
}
