use tidymac::shredder::{fill_random, shred_plan, ShredOp, ShredPattern};

#[test]
fn ten_byte_file_gets_three_full_passes_before_unlink() {
    // random, zeros, random — each a full-length overwrite sealed by
    // flush and durable sync — and only then the unlink.
    let plan = shred_plan(10);
    let expected = vec![
        ShredOp::SeekStart,
        ShredOp::Write { pattern: ShredPattern::Random, offset: 0, len: 10 },
        ShredOp::Flush,
        ShredOp::Sync,
        ShredOp::SeekStart,
        ShredOp::Write { pattern: ShredPattern::Zero, offset: 0, len: 10 },
        ShredOp::Flush,
        ShredOp::Sync,
        ShredOp::SeekStart,
        ShredOp::Write { pattern: ShredPattern::Random, offset: 0, len: 10 },
        ShredOp::Flush,
        ShredOp::Sync,
        ShredOp::Unlink,
    ];
    assert_eq!(plan, expected);
}

#[test]
fn empty_file_is_simply_unlinked() {
    assert_eq!(shred_plan(0), vec![ShredOp::Unlink]);
}

#[test]
fn large_files_are_overwritten_in_chunks() {
    let plan = shred_plan(70_000);
    // first pass: seek, two chunks, flush, sync
    assert_eq!(plan[0], ShredOp::SeekStart);
    assert_eq!(
        plan[1],
        ShredOp::Write { pattern: ShredPattern::Random, offset: 0, len: 65536 }
    );
    assert_eq!(
        plan[2],
        ShredOp::Write { pattern: ShredPattern::Random, offset: 65536, len: 4464 }
    );
    assert_eq!(plan[3], ShredOp::Flush);
    assert_eq!(plan[4], ShredOp::Sync);
    // the unlink comes once, at the very end
    assert_eq!(plan.last(), Some(&ShredOp::Unlink));
    let unlinks = plan.iter().filter(|op| **op == ShredOp::Unlink).count();
    assert_eq!(unlinks, 1);
    // every pass covers the full length
    let written: u64 = plan
        .iter()
        .map(|op| match op {
            ShredOp::Write { len, .. } => *len,
            _ => 0,
        })
        .sum();
    assert_eq!(written, 3 * 70_000);
}

#[test]
fn fill_random_is_a_pure_function_of_the_seed() {
    let a = fill_random(42, 128);
    let b = fill_random(42, 128);
    let c = fill_random(43, 128);
    assert_eq!(a.len(), 128);
    assert_eq!(a, b);
    assert_ne!(a, c);
}

#[test]
fn fill_random_matches_the_generator_definition() {
    let out = fill_random(7, 4);
    let mut state: u64 = 7;
    let mut expected = Vec::new();
    for _ in 0..4 {
        state = state
            .wrapping_mul(6364136223846793005)
            .wrapping_add(1442695040888963407);
        expected.push((state >> 33) as u8);
    }
    assert_eq!(out, expected);
}
