use gouda::flappy::{collision_pairs, PipeSpawner};
use gouda::genindex::GenIndex;

fn pipe(i: usize) -> GenIndex {
    GenIndex { index: i, generation: 1 }
}

#[test]
fn spawns_are_spaced_by_more_than_1500_ms() {
    let spawner = PipeSpawner::create(1_000_000_000);
    assert!(!spawner.spawn_due(1_000_000_000));
    assert!(!spawner.spawn_due(1_000_000_000 + 1_500_999_999));
    assert!(spawner.spawn_due(1_000_000_000 + 1_501_000_000));
    assert!(!spawner.spawn_due(0));
}

#[test]
fn course_fills_then_rotates() {
    let mut spawner = PipeSpawner::create(0);
    for i in 0..6 {
        assert_eq!(spawner.recycle(i), None);
        spawner.add_pipe(pipe(i as usize), i);
    }
    let order: Vec<usize> = spawner.generated.iter().map(|e| e.index).collect();
    assert_eq!(order, vec![5, 4, 3, 2, 1, 0]);
    assert_eq!(spawner.recycle(100), Some(pipe(0)));
    assert_eq!(spawner.last_time, 100);
    let order: Vec<usize> = spawner.generated.iter().map(|e| e.index).collect();
    assert_eq!(order, vec![0, 5, 4, 3, 2, 1]);
    assert_eq!(spawner.recycle(200), Some(pipe(1)));
    assert_eq!(spawner.generated.len(), 6);
}

#[test]
fn collisions_are_reported_once_per_pair_in_order() {
    let es = vec![pipe(10), pipe(11), pipe(12)];
    // 0-1 and 1-2 overlap; the lower triangle is never read
    let hits = vec![
        vec![false, true, false],
        vec![true, false, true],
        vec![true, true, false],
    ];
    let pairs = collision_pairs(&es, &hits);
    assert_eq!(pairs, vec![(pipe(10), pipe(11)), (pipe(11), pipe(12))]);
}

#[test]
fn one_collider_has_no_pairs() {
    assert_eq!(collision_pairs(&vec![pipe(1)], &vec![vec![true]]), vec![]);
}
