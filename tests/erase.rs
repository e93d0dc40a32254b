use sharedobject::erase::{pass_blocks, EraseRun, block_len, erase_plan, pass_pattern, pattern_block, EraseStep, EraseTree, BLOCK_SIZE};

fn describe(steps: &[EraseStep]) -> Vec<String> {
    steps
        .iter()
        .map(|s| match s {
            EraseStep::EraseFile { path } => format!("erase {}", path),
            EraseStep::RemoveDir { path } => format!("rmdir {}", path),
        })
        .collect()
}

#[test]
fn patterns_cycle() {
    let values: Vec<u8> = (0..9).map(pass_pattern).collect();
    assert_eq!(values, vec![0x00, 0xFF, 0xAA, 0x55, 0x00, 0xFF, 0xAA, 0x55, 0x00]);
}

#[test]
fn four_passes_over_one_block() {
    let size: u64 = 4096;
    for pass in 0..4 {
        let pattern = pass_pattern(pass);
        let mut remaining = size;
        let mut written: Vec<u8> = Vec::new();
        while remaining > 0 {
            let n = block_len(remaining);
            written.extend(pattern_block(pattern, n));
            remaining -= n as u64;
        }
        assert_eq!(written.len(), 4096);
        assert!(written.iter().all(|b| *b == [0x00, 0xFF, 0xAA, 0x55][pass]));
    }
}

#[test]
fn block_lengths() {
    assert_eq!(BLOCK_SIZE, 4096);
    assert_eq!(block_len(0), 0);
    assert_eq!(block_len(1), 1);
    assert_eq!(block_len(4095), 4095);
    assert_eq!(block_len(4096), 4096);
    assert_eq!(block_len(10_000), 4096);
    assert_eq!(block_len(u64::MAX), 4096);
}

#[test]
fn pattern_block_contents() {
    assert!(pattern_block(0xAA, 0).is_empty());
    assert_eq!(pattern_block(0x55, 3), vec![0x55, 0x55, 0x55]);
}

#[test]
fn nested_directory_plan() {
    let tree = EraseTree::Dir {
        path: "top".to_string(),
        children: vec![EraseTree::Dir {
            path: "top/sub".to_string(),
            children: vec![EraseTree::File { path: "top/sub/f".to_string() }],
        }],
    };
    assert_eq!(describe(&erase_plan(&tree)), vec!["erase top/sub/f", "rmdir top/sub", "rmdir top"]);
}

#[test]
fn single_file_and_empty_directory_plans() {
    let file = EraseTree::File { path: "x".to_string() };
    assert_eq!(describe(&erase_plan(&file)), vec!["erase x"]);
    let empty = EraseTree::Dir { path: "d".to_string(), children: vec![] };
    assert_eq!(describe(&erase_plan(&empty)), vec!["rmdir d"]);
}

#[test]
fn sibling_entries_keep_their_order() {
    let tree = EraseTree::Dir {
        path: "r".to_string(),
        children: vec![
            EraseTree::File { path: "r/1".to_string() },
            EraseTree::Dir {
                path: "r/d".to_string(),
                children: vec![
                    EraseTree::File { path: "r/d/2".to_string() },
                    EraseTree::File { path: "r/d/3".to_string() },
                ],
            },
            EraseTree::File { path: "r/4".to_string() },
        ],
    };
    assert_eq!(
        describe(&erase_plan(&tree)),
        vec!["erase r/1", "erase r/d/2", "erase r/d/3", "rmdir r/d", "erase r/4", "rmdir r"]
    );
}


#[test]
fn pass_block_lists() {
    assert!(pass_blocks(0).is_empty());
    assert_eq!(pass_blocks(4096), vec![4096]);
    assert_eq!(pass_blocks(4097), vec![4096, 1]);
    assert_eq!(pass_blocks(10_000), vec![4096, 4096, 1808]);
}

fn nested() -> EraseTree {
    EraseTree::Dir {
        path: "top".to_string(),
        children: vec![EraseTree::Dir {
            path: "top/sub".to_string(),
            children: vec![EraseTree::File { path: "top/sub/f".to_string() }],
        }],
    }
}

#[test]
fn run_carries_out_every_step_in_order() {
    let mut run = EraseRun::new(&nested());
    let mut seen = Vec::new();
    while let Some(i) = run.next_step() {
        seen.push(describe(&run.plan[i..i + 1])[0].clone());
        run.record(true);
    }
    assert_eq!(seen, vec!["erase top/sub/f", "rmdir top/sub", "rmdir top"]);
    assert!(!run.failed);
}

#[test]
fn failed_file_leaves_both_directories() {
    let mut run = EraseRun::new(&nested());
    let mut seen = Vec::new();
    while let Some(i) = run.next_step() {
        seen.push(describe(&run.plan[i..i + 1])[0].clone());
        run.record(false);
    }
    assert_eq!(seen, vec!["erase top/sub/f"]);
    assert!(run.failed);
    assert_eq!(run.done, 0);
    assert_eq!(run.next_step(), None);
}
