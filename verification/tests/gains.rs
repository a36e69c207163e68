use terse::gains::{aggregate, fmt_num, latest_session, section_title, SessionFile, Totals};

fn session(calls: u64, o: u64, c: u64, s: u64, mtime: u64) -> SessionFile {
    SessionFile {
        total: Totals { calls, original_tokens: o, compressed_tokens: c, saved_tokens: s },
        mtime,
    }
}

#[test]
fn totals_add_up() {
    let t = aggregate(&[session(1, 100, 60, 40, 5), session(2, 10, 10, 0, 9)]).unwrap();
    assert_eq!((t.calls, t.original_tokens, t.compressed_tokens, t.saved_tokens), (3, 110, 70, 40));
    let z = aggregate(&[]).unwrap();
    assert_eq!((z.calls, z.original_tokens), (0, 0));
    assert!(aggregate(&[session(u64::MAX, 0, 0, 0, 0), session(1, 0, 0, 0, 0)]).is_none());
}

#[test]
fn latest_is_last_of_newest() {
    assert_eq!(latest_session(&[]), None);
    assert_eq!(latest_session(&[session(0, 0, 0, 0, 5), session(0, 0, 0, 0, 9), session(0, 0, 0, 0, 1)]), Some(1));
    assert_eq!(latest_session(&[session(0, 0, 0, 0, 7), session(0, 0, 0, 0, 7)]), Some(1));
    let v = vec![3u64, 9, 9, 2];
    let expected = v.iter().enumerate().max_by_key(|(_, m)| **m).map(|(i, _)| i);
    let files: Vec<SessionFile> = v.iter().map(|m| session(0, 0, 0, 0, *m)).collect();
    assert_eq!(latest_session(&files), expected);
}

#[test]
fn numbers_grouped_by_thousands() {
    assert_eq!(fmt_num(0), "0");
    assert_eq!(fmt_num(999), "999");
    assert_eq!(fmt_num(1000), "1,000");
    assert_eq!(fmt_num(1234567), "1,234,567");
    assert_eq!(fmt_num(123456), "123,456");
    assert_eq!(fmt_num(u64::MAX), "18,446,744,073,709,551,615");
}

#[test]
fn section_titles() {
    assert_eq!(section_title("TOTAL SAVINGS", Some(1)), "TOTAL SAVINGS (1 session)");
    assert_eq!(section_title("TOTAL SAVINGS", Some(12)), "TOTAL SAVINGS (12 sessions)");
    assert_eq!(section_title("LAST SESSION", None), "LAST SESSION");
}
