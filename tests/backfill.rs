use oracle_backfill::{
    header_row, record_row, Backfill, FetchFailure, FetchOutcome, RoundRecord, Uint256,
    DEFAULT_BATCH_SIZE, DEFAULT_DEPTH,
};

fn u(v: u64) -> Uint256 {
    Uint256::from_u64(v)
}

fn round(id: u64) -> RoundRecord {
    RoundRecord::new(u(id), u(id * 10), u(id * 100), u(id * 100 + 1), u(id))
}

fn ids_of(batch: &[Uint256]) -> Vec<String> {
    batch.iter().map(|x| x.to_decimal()).collect()
}

/// Runs a whole backfill against `source`, as the program does, and returns
/// the output text and the batches that were requested.
fn run(
    latest: RoundRecord,
    depth: u32,
    batch_size: u32,
    source: &dyn Fn(u64) -> FetchOutcome,
) -> (String, Vec<Vec<String>>) {
    let mut text = header_row();
    text.push_str(&record_row(&latest));
    let mut bf = Backfill::new(latest, depth, batch_size);
    let mut batches = Vec::new();
    loop {
        let ids = bf.next_batch();
        if ids.is_empty() {
            break;
        }
        batches.push(ids_of(&ids));
        let outcomes: Vec<FetchOutcome> = ids.iter().map(|id| source(id.to_words()[0])).collect();
        for rec in bf.accept(&outcomes) {
            text.push_str(&record_row(&rec));
        }
    }
    assert!(bf.is_done());
    (text, batches)
}

const HEADER: &str = "roundId,answer,startedAt,updatedAt,answeredInRound\n";

#[test]
fn failure_in_second_batch_stops_the_run() {
    let source = |id: u64| {
        if id >= 3 {
            FetchOutcome::Success(round(id))
        } else {
            FetchOutcome::Failure(FetchFailure::Reverted)
        }
    };
    let (text, batches) = run(round(5), 3, 2, &source);
    assert_eq!(batches, vec![vec!["4", "3"], vec!["2"]]);
    let expected = format!(
        "{}5,50,500,501,5\n4,40,400,401,4\n3,30,300,301,3\n",
        HEADER
    );
    assert_eq!(text, expected);
}

#[test]
fn scenario_step_by_step() {
    let mut bf = Backfill::new(round(5), 3, 2);
    assert_eq!(bf.rows_written(), 1);
    let first = bf.next_batch();
    assert_eq!(ids_of(&first), vec!["4", "3"]);
    let out = bf.accept(&vec![FetchOutcome::Success(round(4)), FetchOutcome::Success(round(3))]);
    assert_eq!(out, vec![round(4), round(3)]);
    assert!(!bf.is_done());
    let second = bf.next_batch();
    assert_eq!(ids_of(&second), vec!["2"]);
    let out = bf.accept(&vec![FetchOutcome::Failure(FetchFailure::Transport)]);
    assert!(out.is_empty());
    assert!(bf.is_done());
    assert_eq!(bf.rows_written(), 3);
    assert!(bf.next_batch().is_empty());
}

#[test]
fn first_historical_fetch_fails_leaves_one_row() {
    let source = |_id: u64| FetchOutcome::Failure(FetchFailure::Reverted);
    let (text, batches) = run(round(9), 100, 4, &source);
    assert_eq!(batches.len(), 1);
    assert_eq!(text, format!("{}9,90,900,901,9\n", HEADER));
}

#[test]
fn rows_written_count_leading_successes() {
    let mut bf = Backfill::new(round(10), 6, 3);
    bf.next_batch();
    let out = bf.accept(&vec![
        FetchOutcome::Success(round(9)),
        FetchOutcome::Failure(FetchFailure::Reverted),
        FetchOutcome::Success(round(7)),
    ]);
    assert_eq!(out, vec![round(9)]);
    assert_eq!(bf.rows_written(), 2);
    assert!(bf.is_done());
    assert!(bf.next_batch().is_empty());
}

#[test]
fn outcomes_are_taken_in_batch_order() {
    let mut bf = Backfill::new(round(20), 4, 4);
    let ids = bf.next_batch();
    assert_eq!(ids_of(&ids), vec!["19", "18", "17", "16"]);
    let out = bf.accept(&vec![
        FetchOutcome::Success(round(19)),
        FetchOutcome::Success(round(18)),
        FetchOutcome::Success(round(17)),
        FetchOutcome::Success(round(16)),
    ]);
    assert_eq!(out, vec![round(19), round(18), round(17), round(16)]);
    assert!(bf.is_done());
    assert_eq!(bf.rows_written(), 5);
}

#[test]
fn two_runs_write_the_same_text() {
    let source = |id: u64| {
        if id >= 4 {
            FetchOutcome::Success(round(id))
        } else {
            FetchOutcome::Failure(FetchFailure::Reverted)
        }
    };
    let first = run(round(12), 50, 3, &source);
    let second = run(round(12), 50, 3, &source);
    assert_eq!(first, second);
    assert_eq!(first.0.lines().count(), 1 + 1 + 8);
}

#[test]
fn depth_with_remainder_gives_short_last_batch() {
    let source = |id: u64| FetchOutcome::Success(round(id));
    let (text, batches) = run(round(100), 5, 2, &source);
    assert_eq!(batches, vec![vec!["99", "98"], vec!["97", "96"], vec!["95"]]);
    assert_eq!(text.lines().count(), 1 + 1 + 5);
}

#[test]
fn walk_stops_at_round_zero() {
    let source = |id: u64| FetchOutcome::Success(round(id));
    let (text, batches) = run(round(3), 10, 2, &source);
    assert_eq!(batches, vec![vec!["2", "1"], vec!["0"]]);
    assert!(text.ends_with("0,0,0,1,0\n"));
}

#[test]
fn latest_round_zero_requests_nothing() {
    let bf = Backfill::new(round(0), 10, 2);
    assert!(bf.is_done());
    assert!(bf.next_batch().is_empty());
}

#[test]
fn zero_depth_requests_nothing() {
    let bf = Backfill::new(round(7), 0, 2);
    assert!(bf.is_done());
    assert!(bf.next_batch().is_empty());
}

#[test]
fn walk_crosses_a_word_boundary() {
    let latest = RoundRecord::new(
        Uint256::from_words([1, 1, 0, 0]),
        u(0),
        u(0),
        u(0),
        u(0),
    );
    let bf = Backfill::new(latest, 3, 3);
    let ids = bf.next_batch();
    assert_eq!(ids[0].to_words(), [0, 1, 0, 0]);
    assert_eq!(ids[1].to_words(), [u64::MAX, 0, 0, 0]);
    assert_eq!(ids[2].to_words(), [u64::MAX - 1, 0, 0, 0]);
}

#[test]
fn default_run_sizes() {
    assert_eq!(DEFAULT_DEPTH, 100000);
    assert_eq!(DEFAULT_BATCH_SIZE, 100);
    let bf = Backfill::new(round(1_000_000), DEFAULT_DEPTH, DEFAULT_BATCH_SIZE);
    assert_eq!(bf.next_batch().len(), 100);
}
