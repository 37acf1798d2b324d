use freespace::cat::{cat_stream, parse_args, CopyEvent, CopyState, BUF_SIZE};
use freespace::cipher::{caesar_shift, parse_shift, shift_byte};
use freespace::paths::{display_path, target_directory, TargetError};

fn args(v: &[&str]) -> Vec<Option<String>> {
    v.iter().map(|s| Some(s.to_string())).collect()
}

#[test]
fn cat_arguments() {
    let a = args(&["-s", "a.txt", "-n", "b.txt"]);
    let r = parse_args(&a);
    assert!(r.suppress_errors);
    assert_eq!(r.files, vec![1, 3]);
    let r = parse_args(&args(&["x", "-"]));
    assert!(!r.suppress_errors);
    assert_eq!(r.files, vec![0]);
    let r = parse_args(&vec![None, Some("-s".to_string()), Some("".to_string())]);
    assert!(r.suppress_errors);
    assert_eq!(r.files, vec![0, 2]);
    let r = parse_args(&Vec::new());
    assert!(!r.suppress_errors);
    assert!(r.files.is_empty());
}

#[test]
fn copy_loop_reads_then_writes() {
    let s = cat_stream(CopyState::Reading, CopyEvent::Read(BUF_SIZE), false);
    assert_eq!(s, CopyState::Writing { filled: 512, written: 0 });
    let s = cat_stream(s, CopyEvent::Wrote(200), false);
    assert_eq!(s, CopyState::Writing { filled: 512, written: 200 });
    let s = cat_stream(s, CopyEvent::Wrote(0), false);
    assert_eq!(s, CopyState::Writing { filled: 512, written: 200 });
    let s = cat_stream(s, CopyEvent::Wrote(312), false);
    assert_eq!(s, CopyState::Reading);
    let s = cat_stream(s, CopyEvent::Read(0), false);
    assert_eq!(s, CopyState::Done { ok: true });
}

#[test]
fn copy_loop_errors() {
    assert_eq!(cat_stream(CopyState::Reading, CopyEvent::Failed, false), CopyState::Done { ok: false });
    assert_eq!(cat_stream(CopyState::Reading, CopyEvent::Failed, true), CopyState::Done { ok: true });
    let w = CopyState::Writing { filled: 10, written: 3 };
    assert_eq!(cat_stream(w, CopyEvent::Failed, false), CopyState::Done { ok: false });
    assert_eq!(cat_stream(w, CopyEvent::Failed, true), CopyState::Done { ok: true });
}

#[test]
fn caesar_bytes() {
    assert_eq!(shift_byte(b'a', 1), b'b');
    assert_eq!(shift_byte(255, 1), 0);
    assert_eq!(shift_byte(10, 256), 10);
    assert_eq!(shift_byte(200, u32::MAX), 199);
    let mut v = vec![0u8, 1, 254, 255];
    caesar_shift(&mut v, 3);
    assert_eq!(v, vec![3, 4, 1, 2]);
}

#[test]
fn shift_argument() {
    assert_eq!(parse_shift("3"), Some(3));
    assert_eq!(parse_shift("4294967295"), Some(u32::MAX));
    assert_eq!(parse_shift("4294967296"), None);
    assert_eq!(parse_shift("-3"), None);
    assert_eq!(parse_shift("x"), None);
}

#[test]
fn shown_paths() {
    assert_eq!(display_path("C:\\"), "C:\\");
    assert_eq!(display_path("C:\\Users\\"), "C:\\Users");
    assert_eq!(display_path("C:\\Users\\\\"), "C:\\Users");
    assert_eq!(display_path("/home/me"), "/home/me");
    assert_eq!(display_path("ab\\"), "ab\\");
    assert_eq!(display_path("abc\\"), "abc");
    assert_eq!(display_path(""), "");
}

#[test]
fn chosen_directory() {
    let some = |s: &str| Some(Some(s.to_string()));
    assert_eq!(target_directory(some("/tmp"), some("/home")), Ok("/tmp".to_string()));
    assert_eq!(target_directory(None, some("/home")), Ok("/home".to_string()));
    assert_eq!(target_directory(None, None), Err(TargetError::NoHome));
    assert_eq!(target_directory(Some(None), some("/home")), Err(TargetError::BadEncoding));
    assert_eq!(target_directory(some(""), None), Err(TargetError::Empty));
}
