use try_iter::PlainIterator;
use try_iter::TryIterator;
use try_iter::VecSource;

fn parsed(tokens: &[&str]) -> Vec<Result<i32, std::num::ParseIntError>> {
    tokens.iter().map(|s| s.parse::<i32>()).collect()
}

#[test]
fn try_buffer_then_map() {
    let s = ["1", "2", "3", "4", "5"];
    let mut buf = VecSource::new(parsed(&s)).try_buffer().unwrap();
    let mut out = Vec::new();
    while let Some(v) = buf.next() {
        out.push(v + 2);
    }
    assert_eq!(out, vec![3, 4, 5, 6, 7]);
}

#[test]
fn try_buffer_fails_like_try_collect() {
    let s = ["1", "2", "three", "4"];
    let b = VecSource::new(parsed(&s)).try_buffer();
    match b {
        Ok(_) => panic!("expected the first failure"),
        Err(e) => assert_eq!(e, "three".parse::<i32>().unwrap_err()),
    }
}

#[test]
fn buffer_roundtrip_matches_direct_collect() {
    let s = ["10", "20", "30"];
    let direct: Vec<i32> = VecSource::new(parsed(&s)).try_collect().unwrap();
    let buf = VecSource::new(parsed(&s)).try_buffer().unwrap();
    let re: Vec<i32> = buf.collect_into();
    assert_eq!(re, direct);
}

#[test]
fn buffer_counts_and_reverses() {
    let s = ["1", "2", "3"];
    let mut buf = VecSource::new(parsed(&s)).try_buffer().unwrap();
    assert_eq!(buf.remaining_count(), 3);
    assert_eq!(buf.next_back(), Some(3));
    assert_eq!(buf.remaining_count(), 2);
    assert_eq!(buf.next(), Some(1));
    assert_eq!(buf.next_back(), Some(2));
    assert_eq!(buf.remaining_count(), 0);
    assert_eq!(buf.next_back(), None);
}

#[test]
fn buffer_is_fused() {
    let s = ["9"];
    let mut buf = VecSource::new(parsed(&s)).try_buffer().unwrap();
    assert_eq!(buf.next(), Some(9));
    assert_eq!(buf.next(), None);
    assert_eq!(buf.next(), None);
    assert_eq!(buf.next_back(), None);
    assert_eq!(buf.remaining_count(), 0);
}

#[test]
fn source_yields_in_order() {
    let src: Vec<Result<i32, i32>> = vec![Ok(1), Err(2), Ok(3)];
    let mut s = VecSource::new(src);
    assert_eq!(s.try_next(), Some(Ok(1)));
    assert_eq!(s.try_next(), Some(Err(2)));
    assert_eq!(s.try_next(), Some(Ok(3)));
    assert_eq!(s.try_next(), None);
    assert_eq!(s.try_next(), None);
}
