use rust_pars::pool_size::{check_pool_size, InvalidPoolSizeError, MAX_POOL_SIZE, MIN_POOL_SIZE};

#[test]
fn every_size_in_range_is_accepted() {
    for size in 1..=256usize {
        assert_eq!(check_pool_size(size), Ok(size));
    }
}

#[test]
fn zero_workers_is_rejected() {
    assert_eq!(check_pool_size(0), Err(InvalidPoolSizeError));
}

#[test]
fn more_than_the_largest_size_is_rejected() {
    assert_eq!(check_pool_size(257), Err(InvalidPoolSizeError));
    assert_eq!(check_pool_size(usize::MAX), Err(InvalidPoolSizeError));
}

#[test]
fn bounds_are_one_and_two_hundred_fifty_six() {
    assert_eq!(MIN_POOL_SIZE, 1);
    assert_eq!(MAX_POOL_SIZE, 256);
}

#[test]
fn error_message_names_the_problem() {
    assert_eq!(InvalidPoolSizeError.message(), "Invalid thread pool size.");
}
