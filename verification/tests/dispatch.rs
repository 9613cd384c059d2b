use pattern_png::dispatch::Dispatcher;

/// Serves claims to `workers` workers in the order that `pick` chooses, until
/// every worker has been told to stop. Returns what each worker was given.
fn run_batch(target: i32, workers: usize, pick: fn(usize, usize) -> usize) -> Vec<Vec<i32>> {
    let mut dispatcher = Dispatcher::new(target);
    let mut given: Vec<Vec<i32>> = vec![Vec::new(); workers];
    let mut running: Vec<usize> = (0..workers).collect();
    let mut step = 0;
    while !running.is_empty() {
        let slot = pick(step, running.len());
        let worker = running[slot];
        match dispatcher.claim() {
            Some(index) => given[worker].push(index),
            None => {
                running.remove(slot);
            }
        }
        step += 1;
    }
    given
}

fn round_robin(step: usize, running: usize) -> usize {
    step % running
}

fn first_only(_step: usize, _running: usize) -> usize {
    0
}

fn scrambled(step: usize, running: usize) -> usize {
    (step * 7 + step / 3) % running
}

fn all_indices(given: &Vec<Vec<i32>>) -> Vec<i32> {
    let mut all: Vec<i32> = given.iter().flatten().copied().collect();
    all.sort();
    all
}

#[test]
fn claims_count_up_from_zero() {
    let mut dispatcher = Dispatcher::new(100);
    for expected in 0..100 {
        assert_eq!(dispatcher.claim(), Some(expected));
    }
    assert_eq!(dispatcher.claim(), None);
}

#[test]
fn exhausted_dispatcher_stays_exhausted() {
    let mut dispatcher = Dispatcher::new(3);
    assert_eq!(dispatcher.claim(), Some(0));
    assert_eq!(dispatcher.claim(), Some(1));
    assert_eq!(dispatcher.claim(), Some(2));
    for _ in 0..10 {
        assert_eq!(dispatcher.claim(), None);
    }
}

#[test]
fn zero_target_gives_nothing() {
    let mut dispatcher = Dispatcher::new(0);
    assert_eq!(dispatcher.claim(), None);
    assert_eq!(dispatcher.claim(), None);
}

#[test]
fn negative_target_gives_nothing() {
    let mut dispatcher = Dispatcher::new(-7);
    assert_eq!(dispatcher.claim(), None);
    let mut lowest = Dispatcher::new(i32::MIN);
    assert_eq!(lowest.claim(), None);
}

#[test]
fn target_of_one_gives_index_zero_only() {
    let mut dispatcher = Dispatcher::new(1);
    assert_eq!(dispatcher.claim(), Some(0));
    assert_eq!(dispatcher.claim(), None);
}

#[test]
fn single_worker_gets_the_whole_batch() {
    let given = run_batch(100, 1, round_robin);
    assert_eq!(given.len(), 1);
    assert_eq!(given[0], (0..100).collect::<Vec<i32>>());
}

#[test]
fn every_index_goes_to_exactly_one_worker() {
    let given = run_batch(250, 4, scrambled);
    let all = all_indices(&given);
    assert_eq!(all, (0..250).collect::<Vec<i32>>());
    assert_eq!(given.iter().map(|g| g.len()).sum::<usize>(), 250);
}

#[test]
fn indices_do_not_depend_on_worker_count() {
    let expected: Vec<i32> = (0..100).collect();
    for workers in [1usize, 2, 3, 8, 16, 128] {
        assert_eq!(all_indices(&run_batch(100, workers, round_robin)), expected);
        assert_eq!(all_indices(&run_batch(100, workers, first_only)), expected);
        assert_eq!(all_indices(&run_batch(100, workers, scrambled)), expected);
    }
}

#[test]
fn round_robin_deals_indices_in_turn() {
    let given = run_batch(6, 3, round_robin);
    assert_eq!(given[0], vec![0, 3]);
    assert_eq!(given[1], vec![1, 4]);
    assert_eq!(given[2], vec![2, 5]);
}

#[test]
fn more_workers_than_images() {
    let given = run_batch(2, 5, round_robin);
    assert_eq!(all_indices(&given), vec![0, 1]);
    assert_eq!(given.iter().filter(|g| g.is_empty()).count(), 3);
}

#[test]
fn dispatcher_works_behind_a_lock() {
    let shared = std::sync::Mutex::new(Dispatcher::new(2));
    let first = shared.lock().unwrap().claim();
    let second = shared.lock().unwrap().claim();
    let third = shared.lock().unwrap().claim();
    assert_eq!((first, second, third), (Some(0), Some(1), None));
}

#[test]
fn handed_out_counts_the_claims_that_were_answered() {
    let mut dispatcher = Dispatcher::new(3);
    assert_eq!(dispatcher.target(), 3);
    assert_eq!(dispatcher.handed_out(), 0);
    dispatcher.claim();
    assert_eq!(dispatcher.handed_out(), 1);
    dispatcher.claim();
    dispatcher.claim();
    assert_eq!(dispatcher.handed_out(), 3);
    dispatcher.claim();
    dispatcher.claim();
    assert_eq!(dispatcher.handed_out(), 3);
    assert_eq!(dispatcher.target(), 3);
}

#[test]
fn nothing_is_handed_out_for_a_negative_target() {
    let mut dispatcher = Dispatcher::new(-4);
    dispatcher.claim();
    assert_eq!(dispatcher.handed_out(), 0);
    assert_eq!(dispatcher.target(), -4);
}

#[test]
fn largest_target_starts_at_zero() {
    let mut dispatcher = Dispatcher::new(i32::MAX);
    assert_eq!(dispatcher.target(), i32::MAX);
    assert_eq!(dispatcher.handed_out(), 0);
    assert_eq!(dispatcher.claim(), Some(0));
    assert_eq!(dispatcher.claim(), Some(1));
    assert_eq!(dispatcher.handed_out(), 2);
}
