use remedy::chunks::{chunk_size, partition};
use remedy::engine::{plan_mailbox, MailboxPlan};

fn flatten(chunks: &Vec<Vec<u32>>) -> Vec<u32> {
    let mut all: Vec<u32> = Vec::new();
    for c in chunks {
        for id in c {
            all.push(*id);
        }
    }
    all
}

#[test]
fn chunk_size_is_quotient() {
    assert_eq!(chunk_size(10, 2), 5);
    assert_eq!(chunk_size(5, 2), 2);
    assert_eq!(chunk_size(7, 3), 2);
}

#[test]
fn chunk_size_never_below_one() {
    assert_eq!(chunk_size(0, 4), 1);
    assert_eq!(chunk_size(3, 5), 1);
    assert_eq!(chunk_size(1, 1), 1);
}

#[test]
fn partition_five_ids_two_workers() {
    let ids: Vec<u32> = vec![11, 12, 13, 14, 15];
    let chunks = partition(&ids, 2);
    assert_eq!(chunks.len(), 3);
    assert_eq!(chunks[0], vec![11, 12]);
    assert_eq!(chunks[1], vec![13, 14]);
    assert_eq!(chunks[2], vec![15]);
}

#[test]
fn partition_empty_yields_no_chunks() {
    let ids: Vec<u32> = Vec::new();
    let chunks = partition(&ids, 3);
    assert_eq!(chunks.len(), 0);
}

#[test]
fn partition_fewer_ids_than_workers() {
    let ids: Vec<u32> = vec![1, 2, 3];
    let chunks = partition(&ids, 5);
    assert_eq!(chunks, vec![vec![1], vec![2], vec![3]]);
}

#[test]
fn partition_covers_each_id_exactly_once() {
    for r in 0usize..40 {
        for w in 1usize..7 {
            let ids: Vec<u32> = (0..r as u32).map(|i| 1000 + i).collect();
            let chunks = partition(&ids, w);
            assert_eq!(flatten(&chunks), ids, "R={} W={}", r, w);
            let cs = chunk_size(r, w);
            if r > 0 {
                let expected = (r + cs - 1) / cs;
                assert_eq!(chunks.len(), expected, "R={} W={}", r, w);
                for (i, c) in chunks.iter().enumerate() {
                    if i + 1 < chunks.len() {
                        assert_eq!(c.len(), cs, "R={} W={} chunk {}", r, w, i);
                    } else {
                        assert!(c.len() >= 1 && c.len() <= cs, "R={} W={} last", r, w);
                    }
                }
            } else {
                assert_eq!(chunks.len(), 0);
            }
        }
    }
}

#[test]
fn plan_empty_mailbox_spawns_nothing() {
    let ids: Vec<u32> = Vec::new();
    match plan_mailbox(&ids, 4) {
        MailboxPlan::Empty => {}
        MailboxPlan::Work { .. } => panic!("empty mailbox must not plan work"),
    }
}

#[test]
fn plan_sets_channel_capacity_to_worker_count() {
    let ids: Vec<u32> = vec![1, 2, 3, 4, 5, 6];
    match plan_mailbox(&ids, 3) {
        MailboxPlan::Empty => panic!("six identifiers must plan work"),
        MailboxPlan::Work { chunks, channel_capacity } => {
            assert_eq!(channel_capacity, 3);
            assert_eq!(chunks, vec![vec![1, 2], vec![3, 4], vec![5, 6]]);
        }
    }
}
