use try_iter::PlainIterator;
use try_iter::TryIterator;
use try_iter::VecSource;

fn parsed(tokens: &[&str]) -> Vec<Result<i32, std::num::ParseIntError>> {
    tokens.iter().map(|s| s.parse::<i32>()).collect()
}

#[test]
fn parse() {
    let s = vec!["1", "2", "3", "four", "5"];
    let mut i = VecSource::new(parsed(&s)).try_map(|n| n + 1);
    assert_eq!(i.next(), Some(Ok(2)));
    assert_eq!(i.next(), Some(Ok(3)));
    assert_eq!(i.next(), Some(Ok(4)));
    assert!(i.next().unwrap().is_err());
    assert_eq!(i.next(), Some(Ok(6)));
}

#[test]
fn try_collect() {
    let s = vec!["1", "2", "3", "4"];
    let v: Vec<i32> = VecSource::new(parsed(&s)).try_collect().unwrap();
    assert_eq!(v, vec![1, 2, 3, 4]);
}

#[test]
fn try_collect_fail() {
    let s = ["1", "2", "three", "4"];
    let v = VecSource::new(parsed(&s)).try_collect::<Vec<i32>>();
    assert!(v.is_err());
}

#[test]
fn take_ok() {
    let s = ["1", "2", "three", "4"];
    let v: Vec<i32> = VecSource::new(parsed(&s)).take_ok().collect_into();
    assert_eq!(v, vec![1, 2]);
}

#[test]
fn filter_ok() {
    let s = ["1", "2", "three", "4"];
    let v: Vec<i32> = VecSource::new(parsed(&s)).filter_ok().collect_into();
    assert_eq!(v, vec![1, 2, 4]);
}

#[test]
fn try_filter() {
    let s = vec!["1", "2", "3", "4", "5", "6"];
    let v: Vec<i32> = VecSource::new(parsed(&s)).try_filter(|&n| n > 3).try_collect().unwrap();
    assert_eq!(v, vec![4, 5, 6]);
}

#[test]
fn try_collect_returns_first_failure() {
    let s = ["1", "2", "three", "nope"];
    let v = VecSource::new(parsed(&s)).try_collect::<Vec<i32>>();
    assert_eq!(v.unwrap_err(), "three".parse::<i32>().unwrap_err());
}

#[test]
fn try_filter_forwards_failures() {
    let s = ["1", "x", "4"];
    let mut i = VecSource::new(parsed(&s)).try_filter(|&n| n > 2);
    assert!(i.next().unwrap().is_err());
    assert_eq!(i.next(), Some(Ok(4)));
    assert_eq!(i.next(), None);
}

#[test]
fn take_ok_halts_despite_later_successes() {
    let s = ["1", "x", "2"];
    let mut i = VecSource::new(parsed(&s)).take_ok();
    assert_eq!(i.next(), Some(1));
    assert_eq!(i.next(), None);
    assert_eq!(i.next(), None);
}

#[test]
fn filter_ok_continues_past_failures() {
    let s = ["x", "7", "y", "8"];
    let mut i = VecSource::new(parsed(&s)).filter_ok();
    assert_eq!(i.next(), Some(7));
    assert_eq!(i.next(), Some(8));
    assert_eq!(i.next(), None);
}

#[test]
fn try_flat_map_converts_and_introduces_failures() {
    let src: Vec<Result<i32, i32>> = vec![Ok(2), Ok(3), Err(7), Ok(4)];
    let mut i = VecSource::new(src).try_flat_map(
        |n| if n % 2 == 0 { Ok(n * 10) } else { Err(format!("odd {}", n)) },
        |e| format!("carried {}", e),
    );
    assert_eq!(i.next(), Some(Ok(20)));
    assert_eq!(i.next(), Some(Err(String::from("odd 3"))));
    assert_eq!(i.next(), Some(Err(String::from("carried 7"))));
    assert_eq!(i.next(), Some(Ok(40)));
    assert_eq!(i.next(), None);
}

#[test]
fn try_map_skips_failures_untouched() {
    let src: Vec<Result<i32, i32>> = vec![Err(9), Ok(1)];
    let mut i = VecSource::new(src).try_map(|n| n * 2);
    assert_eq!(i.next(), Some(Err(9)));
    assert_eq!(i.next(), Some(Ok(2)));
    assert_eq!(i.next(), None);
}

#[test]
fn try_collect_into_queue() {
    let s = ["5", "6"];
    let q: std::collections::VecDeque<i32> = VecSource::new(parsed(&s)).try_collect().unwrap();
    assert_eq!(q, std::collections::VecDeque::from(vec![5, 6]));
}

#[test]
fn empty_sequence_everywhere() {
    let empty: Vec<Result<i32, std::num::ParseIntError>> = Vec::new();
    let v: Vec<i32> = VecSource::new(empty.clone()).try_collect().unwrap();
    assert_eq!(v, Vec::<i32>::new());
    let t: Vec<i32> = VecSource::new(empty.clone()).take_ok().collect_into();
    assert_eq!(t, Vec::<i32>::new());
    let f: Vec<i32> = VecSource::new(empty.clone()).filter_ok().collect_into();
    assert_eq!(f, Vec::<i32>::new());
    let mut s = VecSource::new(empty);
    assert_eq!(s.try_next(), None);
}
