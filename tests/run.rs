use loadgen::admission::{Admission, HandleTable};
use loadgen::chat_session::ChatRecord;
use loadgen::game::{GameMessage, GameRecord};
use loadgen::outcome::{Outcome, SessionError};
use loadgen::report::{GameResult, Report};

#[test]
fn five_sessions_two_at_a_time() {
    let mut a = Admission::new(5, 2);
    let mut report: Report<usize> = Report::new();
    let mut active: Vec<usize> = Vec::new();
    let mut max_active = 0;
    let mut order = Vec::new();
    while !a.is_done() {
        while let Some(i) = a.try_admit() {
            active.push(i);
            order.push(i);
        }
        assert!(a.in_flight <= 2);
        max_active = max_active.max(active.len());
        let i = active.remove(0);
        a.release();
        let o = match i % 3 {
            0 => Outcome::Success(i),
            1 => Outcome::Timeout,
            _ => Outcome::Error(SessionError::Io),
        };
        report.record(o);
    }
    assert_eq!(max_active, 2);
    assert_eq!(order, vec![0, 1, 2, 3, 4]);
    assert_eq!(report.total(), 5);
    assert_eq!(report.records, vec![0, 3]);
    assert_eq!(report.timeouts, 2);
    assert_eq!(report.errors, 1);
}

#[test]
fn admission_refuses_beyond_cap_and_count() {
    let mut a = Admission::new(3, 2);
    assert!(a.ramps(0) && a.ramps(1) && !a.ramps(2));
    assert_eq!(a.try_admit(), Some(0));
    assert_eq!(a.try_admit(), Some(1));
    assert_eq!(a.try_admit(), None);
    a.release();
    assert_eq!(a.try_admit(), Some(2));
    assert_eq!(a.try_admit(), None);
    a.release();
    a.release();
    assert!(a.is_done());
    assert_eq!(a.finished, 3);
}

#[test]
fn report_is_independent_of_arrival_order() {
    let r1 = ChatRecord { elapsed_ms: 3, matched: 1 };
    let r2 = ChatRecord { elapsed_ms: 9, matched: 1 };
    let outcomes = vec![
        Outcome::Success(r1),
        Outcome::Timeout,
        Outcome::Error(SessionError::Connection),
        Outcome::Success(r2),
    ];
    let mut a: Report<ChatRecord> = Report::new();
    for o in outcomes.iter() {
        a.record(*o);
    }
    let mut b: Report<ChatRecord> = Report::new();
    for o in outcomes.iter().rev() {
        b.record(*o);
    }
    assert_eq!((a.errors, a.timeouts), (b.errors, b.timeouts));
    let mut ra = a.records.clone();
    let mut rb = b.records.clone();
    ra.sort_by_key(|r| r.elapsed_ms);
    rb.sort_by_key(|r| r.elapsed_ms);
    assert_eq!(ra, rb);
    assert_eq!(a.total(), 4);
}

#[test]
fn handle_table_keeps_most_recent() {
    let mut t: HandleTable<usize> = HandleTable::new(2);
    for i in 0..5usize {
        t.put(i, i * 10);
    }
    assert_eq!(t.len(), 2);
    assert_eq!(t.into_handles(), vec![40, 30]);
}

#[test]
fn game_result_sums_and_tallies_wins() {
    let mut g = GameResult::new();
    g.add(GameMessage::Stop { ticks: 10, bullets_fired: 2, won: true, error_msg: None }, 1);
    g.add(GameMessage::Stop { ticks: 10, bullets_fired: 1, won: false, error_msg: None }, 2);
    g.add(GameMessage::Fire, 1);
    assert_eq!(g, GameResult { ticks: 20, bullets_fired: 3, p1_won: 1, p2_won: 0 });
    g.add(GameMessage::Stop { ticks: 5, bullets_fired: 4, won: true, error_msg: None }, 2);
    assert_eq!(g.p2_won, 1);
    let recs = vec![
        GameRecord { ticks: 7, bullets_fired: 1, won: false, player: 1 },
        GameRecord { ticks: 7, bullets_fired: 2, won: true, player: 2 },
    ];
    assert_eq!(
        GameResult::summarize(&recs),
        GameResult { ticks: 14, bullets_fired: 3, p1_won: 0, p2_won: 1 }
    );
}

#[test]
fn game_totals_do_not_depend_on_order() {
    let a = GameRecord { ticks: u32::MAX, bullets_fired: 5, won: true, player: 1 };
    let b = GameRecord { ticks: 3, bullets_fired: 0, won: true, player: 2 };
    let c = GameRecord { ticks: 8, bullets_fired: 1, won: false, player: 1 };
    let one = GameResult::summarize(&vec![a, b, c]);
    let two = GameResult::summarize(&vec![c, a, b]);
    assert_eq!(one, two);
    assert_eq!(one, GameResult { ticks: u32::MAX as usize + 11, bullets_fired: 6, p1_won: 1, p2_won: 1 });
}
