use std::cell::RefCell;

use rust_pars::filter_map::process_chunk;
use rust_pars::partition::partition;
use rust_pars::results::{ResultCollector, StoreError};

/// Runs the chunks of `items` one by one, storing the results in the reverse
/// of chunk order, as workers that finish out of order would.
fn run_reversed<T, U, F: Fn(&T) -> Option<U>>(items: Vec<T>, p: usize, f: F) -> Vec<U> {
    let chunks = partition(items, p);
    let mut collector = ResultCollector::new(chunks.len());
    for (i, chunk) in chunks.iter().enumerate().rev() {
        let part = process_chunk(chunk, &f);
        assert_eq!(collector.store(i, part), Ok(()));
    }
    assert!(collector.is_complete());
    collector.finish().unwrap()
}

#[test]
fn identity_returns_the_input_in_order() {
    let items: Vec<i32> = (0..97).collect();
    for p in 1..=9 {
        assert_eq!(run_reversed(items.clone(), p, |x: &i32| Some(*x)), items);
    }
}

#[test]
fn dropping_every_item_returns_nothing() {
    let items: Vec<i32> = (0..50).collect();
    for p in 1..=9 {
        assert!(run_reversed(items.clone(), p, |_: &i32| None::<i32>).is_empty());
    }
}

#[test]
fn increment_keeps_order_over_five_hundred_items() {
    let items: Vec<i32> = (1..=500).collect();
    let expected: Vec<i32> = (2..=501).collect();
    assert_eq!(run_reversed(items.clone(), 4, |x: &i32| Some(x + 1)), expected);
    assert_eq!(run_reversed(items, 7, |x: &i32| Some(x + 1)), expected);
}

#[test]
fn filter_keeps_only_present_values() {
    let items: Vec<i32> = (1..=20).collect();
    let evens = run_reversed(items, 3, |x: &i32| if x % 2 == 0 { Some(x * 10) } else { None });
    assert_eq!(evens, vec![20, 40, 60, 80, 100, 120, 140, 160, 180, 200]);
}

#[test]
fn empty_input_needs_no_task_and_gives_nothing() {
    let chunks = partition(Vec::<i32>::new(), 4);
    assert_eq!(chunks.len(), 0);
    let collector: ResultCollector<i32> = ResultCollector::new(chunks.len());
    assert!(collector.is_complete());
    assert_eq!(collector.finish(), Some(vec![]));
}

#[test]
fn every_index_is_processed_exactly_once() {
    let items: Vec<usize> = (0..800).collect();
    let seen = RefCell::new(vec![0u32; 800]);
    let chunks = partition(items, 8);
    assert_eq!(chunks.len(), 8);
    let mut collector = ResultCollector::new(chunks.len());
    for (i, chunk) in chunks.iter().enumerate() {
        let part = process_chunk(chunk, &|x: &usize| {
            seen.borrow_mut()[*x] += 1;
            Some(*x)
        });
        assert_eq!(collector.store(i, part), Ok(()));
    }
    assert!(seen.borrow().iter().all(|&c| c == 1));
    assert_eq!(collector.finish().unwrap(), (0..800).collect::<Vec<usize>>());
}

#[test]
fn process_chunk_applies_the_function() {
    let chunk = vec![3, 4, 5];
    assert_eq!(process_chunk(&chunk, &|x: &i32| Some(x * x)), vec![9, 16, 25]);
    assert_eq!(process_chunk(&Vec::<i32>::new(), &|x: &i32| Some(*x)), Vec::<i32>::new());
}

#[test]
fn a_chunk_result_is_taken_once() {
    let mut collector = ResultCollector::new(2);
    assert_eq!(collector.chunk_count(), 2);
    assert_eq!(collector.store(1, vec![3]), Ok(()));
    assert_eq!(collector.store(1, vec![4]), Err(StoreError::AlreadyStored));
    assert!(!collector.is_complete());
    assert_eq!(collector.store(0, vec![1, 2]), Ok(()));
    assert_eq!(collector.finish(), Some(vec![1, 2, 3]));
}

#[test]
fn an_unknown_chunk_is_refused() {
    let mut collector = ResultCollector::new(2);
    assert_eq!(collector.store(2, vec![1]), Err(StoreError::UnknownChunk));
    assert_eq!(collector.store(0, vec![1]), Ok(()));
}

#[test]
fn an_incomplete_collection_has_no_result() {
    let mut collector = ResultCollector::new(3);
    assert_eq!(collector.store(0, vec![1]), Ok(()));
    assert_eq!(collector.store(2, vec![3]), Ok(()));
    assert_eq!(collector.finish(), None);
}
