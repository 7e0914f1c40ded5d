use kernel_sync::channel::{Command, Coordinator, Request};
use kernel_sync::condsync::CondSync;
use kernel_sync::harness::{forks, get_random_delay, Action, Phase, Stats, Worker};
use kernel_sync::sysmutex::SysMutexSync;
use kernel_sync::NUM_PHIL;

#[test]
fn forks_of_each_worker() {
    assert_eq!(forks(0), (0, 1));
    assert_eq!(forks(1), (1, 2));
    assert_eq!(forks(2), (2, 3));
    assert_eq!(forks(3), (3, 4));
    assert_eq!(forks(4), (4, 5));
    assert_eq!(forks(5), (0, 5));
}

#[test]
fn random_delay_values() {
    // tick / 100 = 12; 12 * 1 = 12; (12 % 32 + 1) * 25 = 325
    assert_eq!(get_random_delay(0, 25, 1234), 325);
    // 12 * 3 = 36; 36 % 32 = 4; 5 * 25 = 125
    assert_eq!(get_random_delay(2, 25, 1234), 125);
    // tick below 100 gives the shortest delay
    assert_eq!(get_random_delay(5, 25, 99), 25);
    // 31 * 1 = 31: the longest delay
    assert_eq!(get_random_delay(0, 25, 3100), 800);
    // any worker number is accepted: 12 * 1001 = 12012; 12012 % 32 = 12; 13 * 25 = 325
    assert_eq!(get_random_delay(1000, 25, 1234), 325);
    // a product past the top of u64 keeps its low bits
    assert_eq!(get_random_delay(5, 1, u64::MAX), ((u64::MAX / 100).wrapping_mul(6) & 0x1f) + 1);
}

#[test]
fn worker_cycle_order() {
    let mut w = Worker::new(5, 25);
    assert_eq!(w.phase(), Phase::TakeFirst);
    assert_eq!(w.next(0), Action::Take(0));
    assert_eq!(w.next(0), Action::Take(5));
    // 1234 / 100 = 12; 12 * 6 = 72; 72 % 32 = 8; 9 * 25 = 225
    assert_eq!(w.next(1234), Action::Eat(225));
    assert_eq!(w.next(0), Action::Release(5));
    assert_eq!(w.next(0), Action::Release(0));
    assert_eq!(w.next(50), Action::Think(25));
    assert_eq!(w.phase(), Phase::TakeFirst);
    assert_eq!(w.next(0), Action::Take(0));
}

#[test]
fn middle_worker_takes_own_fork_first() {
    let mut w = Worker::new(2, 10);
    assert_eq!(w.next(0), Action::Take(2));
    assert_eq!(w.next(0), Action::Take(3));
    assert_eq!(w.phase(), Phase::Eat);
}

#[test]
fn stats_accumulate() {
    let mut s = Stats::new();
    assert_eq!(s.count(), &[0u64; NUM_PHIL][..]);
    s.record_eat(2, 40);
    s.record_eat(2, 10);
    s.record_think(2, 7);
    s.record_think(4, 3);
    assert_eq!(s.eating(), &[0, 0, 50, 0, 0, 0][..]);
    assert_eq!(s.thinking(), &[0, 0, 7, 0, 3, 0][..]);
    assert_eq!(s.count(), &[0, 0, 1, 0, 1, 0][..]);
}

#[derive(Clone, Copy, PartialEq, Debug)]
enum Which {
    Cond,
    Mutexes,
    Channel,
}

struct Ring {
    which: Which,
    cond: CondSync,
    mutexes: SysMutexSync,
    coord: Coordinator,
    /// Per worker: a take sent to the coordinator and not yet answered.
    pending: [bool; NUM_PHIL],
    /// Per worker: a grant that the coordinator has sent.
    granted: [bool; NUM_PHIL],
}

impl Ring {
    fn new(which: Which) -> Ring {
        Ring {
            which,
            cond: CondSync::new(),
            mutexes: SysMutexSync::new(NUM_PHIL),
            coord: Coordinator::new(NUM_PHIL),
            pending: [false; NUM_PHIL],
            granted: [false; NUM_PHIL],
        }
    }

    fn try_take(&mut self, worker: usize, index: usize) -> bool {
        match self.which {
            Which::Cond => self.cond.take(index),
            Which::Mutexes => self.mutexes.take(index, worker as u64),
            Which::Channel => {
                if !self.pending[worker] {
                    self.pending[worker] = true;
                    let req = Request { worker: worker as u64, index, command: Command::Take };
                    if let Some(w) = self.coord.handle(req) {
                        self.granted[w as usize] = true;
                    }
                }
                if self.granted[worker] {
                    self.granted[worker] = false;
                    self.pending[worker] = false;
                    true
                } else {
                    false
                }
            }
        }
    }

    fn release(&mut self, worker: usize, index: usize) {
        match self.which {
            Which::Cond => self.cond.release(index),
            Which::Mutexes => self.mutexes.release(index, worker as u64).unwrap(),
            Which::Channel => {
                let req = Request { worker: worker as u64, index, command: Command::Release };
                if let Some(w) = self.coord.handle(req) {
                    self.granted[w as usize] = true;
                }
            }
        }
    }
}

/// Runs the ring one step per worker per tick until every worker has done `cycles` cycles,
/// checking that no resource ever has two holders. Returns the takes per resource, the stats,
/// and the number of ticks used.
fn run_ring(which: Which, cycles: u64) -> ([u64; NUM_PHIL], Stats, u64) {
    let mut ring = Ring::new(which);
    let mut workers: Vec<Worker> = (0..NUM_PHIL).map(|n| Worker::new(n, 1)).collect();
    let mut current: [Option<Action>; NUM_PHIL] = [None; NUM_PHIL];
    let mut busy = [0u64; NUM_PHIL];
    let mut done = [false; NUM_PHIL];
    let mut holder: [Option<usize>; NUM_PHIL] = [None; NUM_PHIL];
    let mut takes = [0u64; NUM_PHIL];
    let mut stats = Stats::new();
    let mut tick: u64 = 0;
    while done.iter().any(|d| !*d) {
        assert!(tick < 100_000, "ring made no progress");
        for n in 0..NUM_PHIL {
            if done[n] {
                continue;
            }
            if busy[n] > 0 {
                busy[n] -= 1;
                continue;
            }
            let a = match current[n] {
                Some(a) => a,
                None => workers[n].next(tick * 37),
            };
            current[n] = None;
            match a {
                Action::Take(f) => {
                    if ring.try_take(n, f) {
                        assert_eq!(holder[f], None, "resource {} taken twice", f);
                        holder[f] = Some(n);
                        takes[f] += 1;
                    } else {
                        current[n] = Some(a);
                    }
                }
                Action::Release(f) => {
                    assert_eq!(holder[f], Some(n));
                    holder[f] = None;
                    ring.release(n, f);
                }
                Action::Eat(d) => {
                    stats.record_eat(n, d);
                    busy[n] = d;
                }
                Action::Think(d) => {
                    stats.record_think(n, d);
                    busy[n] = d;
                    if stats.count()[n] >= cycles {
                        done[n] = true;
                    }
                }
            }
        }
        tick += 1;
    }
    (takes, stats, tick)
}

#[test]
fn ring_of_six_completes_with_condvar_strategy() {
    let (takes, stats, _) = run_ring(Which::Cond, 20);
    assert_eq!(stats.count(), &[20u64; NUM_PHIL][..]);
    assert_eq!(takes, [40u64; NUM_PHIL]);
}

#[test]
fn ring_of_six_completes_with_mutex_strategy() {
    let (takes, stats, _) = run_ring(Which::Mutexes, 20);
    assert_eq!(stats.count(), &[20u64; NUM_PHIL][..]);
    assert_eq!(takes, [40u64; NUM_PHIL]);
}

#[test]
fn ring_of_six_completes_with_channel_strategy() {
    let (takes, stats, _) = run_ring(Which::Channel, 20);
    assert_eq!(stats.count(), &[20u64; NUM_PHIL][..]);
    assert_eq!(takes, [40u64; NUM_PHIL]);
}

#[test]
fn strategies_take_each_resource_equally_often() {
    let a = run_ring(Which::Cond, 15).0;
    let b = run_ring(Which::Mutexes, 15).0;
    let c = run_ring(Which::Channel, 15).0;
    assert_eq!(a, b);
    assert_eq!(b, c);
}

#[test]
fn each_resource_has_two_users() {
    let mut users = [0u32; NUM_PHIL];
    for n in 0..NUM_PHIL {
        let (a, b) = forks(n);
        assert!(a < b);
        users[a] += 1;
        users[b] += 1;
    }
    assert_eq!(users, [2u32; NUM_PHIL]);
}
