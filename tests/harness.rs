use oort_control::harness::{advance_status, collect_results, first_n, next_action, order_by_seed, results_from_pairs, run_round, summarize, RoundAction, Status, MAX_TICKS};

#[test]
fn duel_ten_rounds_partition_seeds() {
    let statuses = vec![
        Status::Victory { team: 0 },
        Status::Victory { team: 1 },
        Status::Draw,
        Status::Victory { team: 0 },
        Status::Running,
        Status::Victory { team: 0 },
        Status::Draw,
        Status::Victory { team: 1 },
        Status::Victory { team: 0 },
        Status::Draw,
    ];
    let r = collect_results(&statuses);
    assert_eq!(r.team0_wins, vec![0, 3, 5, 8]);
    assert_eq!(r.team1_wins, vec![1, 7]);
    assert_eq!(r.draws, vec![2, 4, 6, 9]);
    assert_eq!(r.team0_wins.len() + r.team1_wins.len() + r.draws.len(), 10);
    let mut all: Vec<u32> = Vec::new();
    all.extend(r.team0_wins.iter());
    all.extend(r.team1_wins.iter());
    all.extend(r.draws.iter());
    all.sort();
    assert_eq!(all, (0..10).collect::<Vec<u32>>());
}

#[test]
fn empty_batch_has_no_results() {
    let r = collect_results(&Vec::new());
    assert!(r.team0_wins.is_empty() && r.team1_wins.is_empty() && r.draws.is_empty());
}

#[test]
fn round_steps_while_running_under_cap() {
    assert_eq!(next_action(Status::Running, 0), RoundAction::Step);
    assert_eq!(next_action(Status::Running, MAX_TICKS - 1), RoundAction::Step);
}

#[test]
fn round_at_tick_cap_is_a_draw() {
    assert_eq!(next_action(Status::Running, MAX_TICKS), RoundAction::Finish(Status::Draw));
}

#[test]
fn terminal_round_finishes_with_its_status() {
    assert_eq!(
        next_action(Status::Victory { team: 1 }, 5),
        RoundAction::Finish(Status::Victory { team: 1 })
    );
    assert_eq!(next_action(Status::Draw, 5), RoundAction::Finish(Status::Draw));
}

#[test]
fn terminal_status_is_kept() {
    assert_eq!(advance_status(Status::Running, Status::Victory { team: 0 }), Status::Victory { team: 0 });
    assert_eq!(advance_status(Status::Draw, Status::Victory { team: 1 }), Status::Draw);
    assert_eq!(advance_status(Status::Victory { team: 1 }, Status::Running), Status::Victory { team: 1 });
}

#[test]
fn statuses_are_put_in_seed_order() {
    let pairs = vec![(2, Status::Draw), (0, Status::Victory { team: 1 }), (1, Status::Victory { team: 0 })];
    assert_eq!(
        order_by_seed(&pairs, 3),
        Some(vec![Status::Victory { team: 1 }, Status::Victory { team: 0 }, Status::Draw])
    );
}

#[test]
fn reordering_rejects_missing_repeated_or_stray_seeds() {
    assert_eq!(order_by_seed(&vec![(0, Status::Draw), (0, Status::Draw)], 2), None);
    assert_eq!(order_by_seed(&vec![(0, Status::Draw)], 2), None);
    assert_eq!(order_by_seed(&vec![(0, Status::Draw), (5, Status::Draw)], 2), None);
    assert_eq!(order_by_seed(&Vec::new(), 0), Some(Vec::new()));
}

#[test]
fn duel_ten_rounds_in_completion_order() {
    let pairs = vec![
        (7, Status::Victory { team: 1 }),
        (3, Status::Victory { team: 0 }),
        (9, Status::Draw),
        (0, Status::Victory { team: 0 }),
        (5, Status::Victory { team: 0 }),
        (1, Status::Victory { team: 1 }),
        (8, Status::Victory { team: 0 }),
        (2, Status::Draw),
        (6, Status::Draw),
        (4, Status::Draw),
    ];
    let r = results_from_pairs(&pairs, 10).unwrap();
    assert_eq!(r.team0_wins, vec![0, 3, 5, 8]);
    assert_eq!(r.team1_wins, vec![1, 7]);
    assert_eq!(r.draws, vec![2, 4, 6, 9]);
    let mut reversed = pairs.clone();
    reversed.reverse();
    assert_eq!(results_from_pairs(&reversed, 10), Some(r));
}

#[test]
fn summary_counts_and_samples() {
    let statuses: Vec<Status> = (0..25).map(|i| if i % 5 == 0 { Status::Draw } else { Status::Victory { team: 0 } }).collect();
    let s = summarize(&collect_results(&statuses), 10);
    assert_eq!(s.wins, 20);
    assert_eq!(s.losses, 0);
    assert_eq!(s.draws, 5);
    assert_eq!(s.win_sample, vec![1, 2, 3, 4, 6, 7, 8, 9, 11, 12]);
    assert!(s.loss_sample.is_empty());
    assert_eq!(s.draw_sample, vec![0, 5, 10, 15, 20]);
}

#[test]
fn first_n_takes_prefix() {
    assert_eq!(first_n(&vec![4, 5, 6], 2), vec![4, 5]);
    assert_eq!(first_n(&vec![4, 5, 6], 10), vec![4, 5, 6]);
    assert_eq!(first_n(&vec![4, 5, 6], 0), Vec::<u32>::new());
}

#[test]
fn round_ends_on_first_terminal_report() {
    let mut reports = vec![Status::Running; MAX_TICKS as usize];
    reports[4] = Status::Victory { team: 0 };
    reports[9] = Status::Victory { team: 1 };
    assert_eq!(run_round(&reports), (Status::Victory { team: 0 }, 5));
}

#[test]
fn round_reaching_cap_is_a_draw() {
    let reports = vec![Status::Running; MAX_TICKS as usize];
    assert_eq!(run_round(&reports), (Status::Draw, MAX_TICKS));
}

#[test]
fn replaying_a_round_gives_the_same_result() {
    let mut reports = vec![Status::Running; MAX_TICKS as usize];
    reports[123] = Status::Draw;
    assert_eq!(run_round(&reports), run_round(&reports.clone()));
    assert_eq!(run_round(&reports), (Status::Draw, 124));
}
