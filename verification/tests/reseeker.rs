use miogenes::reseeker::{ReSeeker, SeekFrom};

fn filled(bytes: &[u8]) -> ReSeeker {
    let mut r = ReSeeker::new();
    let mut out = vec![0u8; bytes.len()];
    let (n, done) = r.read_kept(&mut out);
    assert_eq!((n, done), (0, false));
    r.keep_fresh(bytes.to_vec(), bytes.len(), &mut out, 0);
    assert_eq!(out, bytes);
    r
}

#[test]
fn new_is_empty() {
    let r = ReSeeker::new();
    assert_eq!(r.pos(), 0);
}

#[test]
fn replay_after_seek() {
    let mut r = filled(&[1, 2, 3, 4, 5]);
    assert_eq!(r.pos(), 5);
    assert_eq!(r.seek(SeekFrom::Start(1)), 1);
    let mut out = vec![0u8; 3];
    assert_eq!(r.read_kept(&mut out), (3, true));
    assert_eq!(out, vec![2, 3, 4]);
    assert_eq!(r.pos(), 4);
}

#[test]
fn read_runs_out_of_kept_bytes() {
    let mut r = filled(&[1, 2, 3]);
    r.seek(SeekFrom::Start(2));
    let mut out = vec![9u8; 4];
    assert_eq!(r.read_kept(&mut out), (1, false));
    assert_eq!(out, vec![3, 9, 9, 9]);
    r.keep_fresh(vec![4, 5, 6], 3, &mut out, 1);
    assert_eq!(out, vec![3, 4, 5, 6]);
    assert_eq!(r.pos(), 6);
    r.seek(SeekFrom::Start(0));
    let mut all = vec![0u8; 6];
    assert_eq!(r.read_kept(&mut all), (6, false));
    assert_eq!(all, vec![1, 2, 3, 4, 5, 6]);
}

#[test]
fn exact_fill_is_not_complete() {
    let mut r = filled(&[1, 2]);
    r.seek(SeekFrom::Start(0));
    let mut out = vec![0u8; 2];
    assert_eq!(r.read_kept(&mut out), (2, false));
}

#[test]
fn seeks_clamp() {
    let mut r = filled(&[0; 10]);
    assert_eq!(r.seek(SeekFrom::Start(100)), 10);
    assert_eq!(r.seek(SeekFrom::End(-3)), 7);
    assert_eq!(r.seek(SeekFrom::End(5)), 10);
    assert_eq!(r.seek(SeekFrom::End(-20)), 0);
    assert_eq!(r.seek(SeekFrom::Current(4)), 4);
    assert_eq!(r.seek(SeekFrom::Current(-1)), 3);
    assert_eq!(r.seek(SeekFrom::Current(-10)), 0);
    assert_eq!(r.seek(SeekFrom::Current(100)), 10);
    assert_eq!(r.seek(SeekFrom::Current(0)), 10);
    assert_eq!(r.seek(SeekFrom::End(0)), 10);
}

#[test]
fn short_read_keeps_only_what_was_read() {
    let mut r = ReSeeker::new();
    let mut out = vec![0u8; 4];
    assert_eq!(r.read_kept(&mut out), (0, false));
    r.keep_fresh(vec![1, 2, 3, 0], 3, &mut out, 0);
    assert_eq!(&out[..3], &[1, 2, 3]);
    assert_eq!(r.pos(), 3);
    assert_eq!(r.seek(SeekFrom::Start(0)), 0);
    let mut again = vec![9u8; 4];
    assert_eq!(r.read_kept(&mut again), (3, false));
    assert_eq!(again, vec![1, 2, 3, 9]);
    assert_eq!(r.seek(SeekFrom::End(0)), 3);
}
