use listening::clock::{
    date_time_str, during_today, during_yesterday, now_str, today_zero, today_zero_of, yesterday_window,
    LocalDateTime,
};

fn t(year: i32, month: u32, day: u32, hour: u32, minute: u32, second: u32) -> LocalDateTime {
    LocalDateTime { year, month, day, hour, minute, second }
}

#[test]
fn text_of_a_time() {
    assert_eq!(date_time_str(t(2024, 3, 5, 7, 8, 9)), "2024-03-05 07:08:09");
    assert_eq!(date_time_str(t(1999, 12, 31, 23, 59, 59)), "1999-12-31 23:59:59");
    assert_eq!(date_time_str(t(42, 1, 1, 0, 0, 0)), "0042-01-01 00:00:00");
    assert_eq!(date_time_str(t(-5, 6, 7, 8, 9, 10)), "-0005-06-07 08:09:10");
    assert_eq!(date_time_str(t(12345, 2, 3, 4, 5, 6)), "+12345-02-03 04:05:06");
}

#[test]
fn text_order_follows_time_order() {
    let times = [
        t(2023, 12, 31, 23, 59, 59),
        t(2024, 1, 1, 0, 0, 0),
        t(2024, 1, 1, 0, 0, 1),
        t(2024, 1, 1, 0, 1, 0),
        t(2024, 1, 1, 1, 0, 0),
        t(2024, 1, 2, 0, 0, 0),
        t(2024, 2, 1, 0, 0, 0),
        t(2024, 10, 1, 0, 0, 0),
    ];
    for i in 0..times.len() {
        for j in 0..times.len() {
            let a = date_time_str(times[i]);
            let b = date_time_str(times[j]);
            assert_eq!(a < b, i < j);
        }
    }
}

#[test]
fn midnight_of_a_day() {
    let z = today_zero_of(t(2024, 3, 5, 7, 8, 9));
    assert_eq!(z, t(2024, 3, 5, 0, 0, 0));
    assert_eq!(date_time_str(z), "2024-03-05 00:00:00");
}

#[test]
fn yesterday_windows() {
    let (s, e) = yesterday_window(t(2024, 3, 1, 0, 0, 0));
    assert_eq!(s, "2024-02-29 00:00:00");
    assert_eq!(e, "2024-03-01 00:00:00");
    let (s, e) = yesterday_window(t(2023, 3, 1, 0, 0, 0));
    assert_eq!(s, "2023-02-28 00:00:00");
    assert_eq!(e, "2023-03-01 00:00:00");
    let (s, _) = yesterday_window(t(2023, 1, 1, 0, 0, 0));
    assert_eq!(s, "2022-12-31 00:00:00");
    let (s, _) = yesterday_window(t(2024, 5, 17, 0, 0, 0));
    assert_eq!(s, "2024-05-16 00:00:00");
}

#[test]
fn clock_windows_have_the_stored_shape() {
    let now = now_str();
    assert_eq!(now.len(), 19);
    let z = today_zero();
    assert_eq!((z.hour, z.minute, z.second), (0, 0, 0));
    let (start, end) = during_today();
    assert!(start.ends_with(" 00:00:00"));
    assert!(start <= end);
    let (ystart, yend) = during_yesterday();
    assert!(ystart.ends_with(" 00:00:00"));
    assert!(yend.ends_with(" 00:00:00"));
    assert!(ystart < yend);
}
