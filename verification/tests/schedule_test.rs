use listening::schedule::{review_interval_secs, review_query, ReviewQuery};
use listening::view::{ExamRs, ReviewTy};

#[test]
fn review_interval_doubles_from_twelve_hours() {
    assert_eq!(review_interval_secs(0), 12 * 3600);
    assert_eq!(review_interval_secs(1), 24 * 3600);
    assert_eq!(review_interval_secs(3), 96 * 3600);
    assert_eq!(review_interval_secs(48), 43200u64 << 48);
    for n in 0..48i64 {
        assert_eq!(review_interval_secs(n + 1), 2 * review_interval_secs(n));
    }
}

#[test]
fn review_interval_reads_the_low_bits() {
    assert_eq!(review_interval_secs(1i64 << 32), 43200);
    assert_eq!(review_interval_secs((1i64 << 32) + 2), 4 * 43200);
}

#[test]
fn test_results() {
    assert_eq!(ExamRs::Success.record_result(), 1);
    assert_eq!(ExamRs::Fail.record_result(), 0);
}

#[test]
fn review_queries_by_kind() {
    match review_query(ReviewTy::Today, 10) {
        ReviewQuery::RightWords { start, end } => {
            assert!(start.ends_with(" 00:00:00"));
            assert!(start <= end);
        }
        _ => panic!("today asks for right words"),
    }
    match review_query(ReviewTy::YesterdayError, 10) {
        ReviewQuery::ErrorWords { start, end } => {
            assert!(start < end);
            assert!(end.ends_with(" 00:00:00"));
        }
        _ => panic!("yesterday's errors ask for error words"),
    }
    assert!(matches!(review_query(ReviewTy::Yesterday, 1), ReviewQuery::RightWords { .. }));
    assert!(matches!(review_query(ReviewTy::TodayError, 1), ReviewQuery::ErrorWords { .. }));
    match review_query(ReviewTy::Review, 25) {
        ReviewQuery::DueWords { before, limit } => {
            assert_eq!(limit, 25);
            assert_eq!(before.len(), 19);
        }
        _ => panic!("review asks for due words"),
    }
}
