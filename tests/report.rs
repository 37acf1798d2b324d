use freespace::capacity::SpaceSnapshot;
use freespace::report::{heading, report_lines};

#[test]
fn heading_is_centred() {
    assert_eq!(heading("After file creation"), "After file creation  status:");
    assert_eq!(heading("Before file creation"), "Before file creation status:");
    assert_eq!(heading("ab"), "         ab          status:");
    assert_eq!(heading("After setting file length"), "After setting file length status:");
    assert_eq!(heading(""), "                     status:");
}

#[test]
fn report_of_a_snapshot() {
    let s = SpaceSnapshot { total_bytes: 1073741824, free_bytes: 536870912 };
    let lines = report_lines("After file deletion", &s);
    assert_eq!(
        lines,
        vec![
            "After file deletion  status:".to_string(),
            "Total space:           1,073,741,824 bytes".to_string(),
            "Used space:              536,870,912 bytes".to_string(),
            "Free space:              536,870,912 bytes".to_string(),
            "Total:                          1.00 GB".to_string(),
            "Free:                           0.50 GB".to_string(),
        ]
    );
}

#[test]
fn report_matches_std_alignment() {
    let s = SpaceSnapshot { total_bytes: u64::MAX, free_bytes: 12345 };
    let lines = report_lines("Before file creation", &s);
    assert_eq!(lines[0], format!("{:^20} status:", "Before file creation"));
    assert_eq!(lines[1], format!("{:<15} {:>20} bytes", "Total space:", "18,446,744,073,709,551,615"));
    assert_eq!(lines[2], format!("{:<15} {:>20} bytes", "Used space:", "18,446,744,073,709,539,270"));
    assert_eq!(lines[3], format!("{:<15} {:>20} bytes", "Free space:", "12,345"));
    assert_eq!(lines[4], format!("{:<15} {:>20} GB", "Total:", "17179869184.00"));
    assert_eq!(lines[5], format!("{:<15} {:>20} GB", "Free:", "0.00"));
}

#[test]
fn report_with_anomalous_snapshot() {
    let s = SpaceSnapshot { total_bytes: 10, free_bytes: 20 };
    let lines = report_lines("x", &s);
    assert_eq!(lines[2], format!("{:<15} {:>20} bytes", "Used space:", "0"));
}
