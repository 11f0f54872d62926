use collatz_pool::pool::{PoolCore, PoolError, WorkerStep};

fn drain(core: &mut PoolCore<u32>, ran: &mut Vec<u32>) -> usize {
    let mut exits: usize = 0;
    loop {
        match core.next_step() {
            WorkerStep::Run(j) => ran.push(j),
            WorkerStep::Exit => exits += 1,
            WorkerStep::Wait => return exits,
        }
    }
}

#[test]
fn zero_size_is_refused() {
    assert!(matches!(PoolCore::<u32>::new(0), Err(PoolError::ZeroSize)));
}

#[test]
fn new_pool_is_idle() {
    let mut core = PoolCore::<u32>::new(4).ok().unwrap();
    assert_eq!(core.size(), 4);
    assert!(!core.is_disposed());
    assert_eq!(core.exited(), 0);
    assert!(matches!(core.next_step(), WorkerStep::Wait));
}

#[test]
fn dispose_without_jobs_stops_every_worker() {
    for n in 1..6usize {
        let mut core = PoolCore::<u32>::new(n).ok().unwrap();
        assert_eq!(core.dispose(), Ok(()));
        let mut ran = Vec::new();
        assert_eq!(drain(&mut core, &mut ran), n);
        assert!(ran.is_empty());
        assert_eq!(core.exited(), n);
    }
}

#[test]
fn every_job_runs_once_before_shutdown() {
    for m in [0u32, 1, 7, 100] {
        let mut core = PoolCore::<u32>::new(3).ok().unwrap();
        for j in 0..m {
            assert_eq!(core.execute(j), Ok(()));
        }
        assert_eq!(core.dispose(), Ok(()));
        let mut ran = Vec::new();
        assert_eq!(drain(&mut core, &mut ran), 3);
        assert_eq!(ran, (0..m).collect::<Vec<u32>>());
    }
}

#[test]
fn no_stop_signal_before_queued_jobs() {
    let mut core = PoolCore::<u32>::new(2).ok().unwrap();
    core.execute(10).unwrap();
    core.execute(11).unwrap();
    core.dispose().unwrap();
    assert!(matches!(core.next_step(), WorkerStep::Run(10)));
    assert!(matches!(core.next_step(), WorkerStep::Run(11)));
    assert!(matches!(core.next_step(), WorkerStep::Exit));
    assert_eq!(core.exited(), 1);
    assert!(matches!(core.next_step(), WorkerStep::Exit));
    assert!(matches!(core.next_step(), WorkerStep::Wait));
    assert_eq!(core.exited(), 2);
}

#[test]
fn many_jobs_interleaved_with_workers() {
    let mut core = PoolCore::<u32>::new(2).ok().unwrap();
    let mut count: u32 = 0;
    for j in 0..10_000u32 {
        core.execute(j).unwrap();
        if j % 3 == 0 {
            if let WorkerStep::Run(_) = core.next_step() {
                count += 1;
            }
        }
    }
    core.dispose().unwrap();
    let mut ran = Vec::new();
    assert_eq!(drain(&mut core, &mut ran), 2);
    count += ran.len() as u32;
    assert_eq!(count, 10_000);
}

#[test]
fn execute_after_dispose_is_rejected() {
    let mut core = PoolCore::<u32>::new(2).ok().unwrap();
    core.dispose().unwrap();
    assert!(core.is_disposed());
    assert_eq!(core.execute(1), Err(PoolError::Disposed));
    let mut ran = Vec::new();
    assert_eq!(drain(&mut core, &mut ran), 2);
    assert!(ran.is_empty());
}

#[test]
fn second_dispose_is_rejected() {
    let mut core = PoolCore::<u32>::new(3).ok().unwrap();
    assert_eq!(core.dispose(), Ok(()));
    assert_eq!(core.dispose(), Err(PoolError::Disposed));
    let mut ran = Vec::new();
    assert_eq!(drain(&mut core, &mut ran), 3);
}
