use miogenes::pushbuf::{PushError, SharedBuffer};

#[test]
fn nothing() {
    let mut buf = SharedBuffer::<f32>::new(0);
    assert!(buf.get(0).is_none());
    assert!(buf.push(0.0).is_err());
    assert!(buf.get(0).is_none());
}

#[test]
fn just_one_item() {
    let mut buf = SharedBuffer::<f64>::new(1);
    assert!(buf.get(0).is_none());
    assert!(buf.push(0.0).is_ok());
    assert!(buf.get(0).copied().is_some_and(|x| x == 0.0));
}

#[test]
fn something() {
    let mut buf = SharedBuffer::<i32>::new(5);
    for i in 0..5 {
        assert!(buf.get(i).is_none());
        assert!(buf.push(i as i32).is_ok());
        assert!(buf.get(i).copied().is_some_and(|x| x == i as i32));
    }
    assert!(buf.get(5).is_none());
    assert!(buf.push(5).is_err());
}

#[test]
fn full_buffer_hands_value_back() {
    let mut buf = SharedBuffer::<String>::new(1);
    assert!(buf.push("a".to_string()).is_ok());
    match buf.push("b".to_string()) {
        Err(e) => {
            assert_eq!(e.0, "b");
            assert_eq!(e.message(), "internal buffer is full, cannot push more values");
        }
        Ok(()) => panic!("push on a full buffer succeeded"),
    }
    assert_eq!(buf.filled_size(), 1);
    assert_eq!(buf.buf_size(), 1);
}

#[test]
fn sizes_and_into_owned() {
    let mut buf = SharedBuffer::<u8>::new(3);
    assert_eq!(buf.buf_size(), 3);
    assert_eq!(buf.filled_size(), 0);
    buf.push(7).ok().unwrap();
    buf.push(9).ok().unwrap();
    assert_eq!(buf.filled_size(), 2);
    assert_eq!(buf.get(1), Some(&9));
    assert_eq!(buf.into_owned(), vec![7u8, 9u8]);
}

#[test]
fn earlier_values_survive_later_pushes() {
    let mut buf = SharedBuffer::<u32>::new(4);
    for v in [10u32, 20, 30, 40] {
        buf.push(v).ok().unwrap();
    }
    assert_eq!(buf.get(0), Some(&10));
    assert_eq!(buf.get(3), Some(&40));
    assert_eq!(buf.get(4), None);
}

#[test]
fn filled_once_in_push_order() {
    let mut buf = SharedBuffer::<u32>::new(4);
    let mut ok = 0;
    for v in 10..17u32 {
        let before = buf.filled_size();
        match buf.push(v) {
            Ok(()) => {
                assert_eq!(buf.get(before).copied(), Some(v));
                ok += 1;
            }
            Err(PushError(w)) => assert_eq!(w, v),
        }
        assert!(buf.filled_size() >= before);
        assert_eq!(buf.buf_size(), 4);
    }
    assert_eq!(ok, 4);
    assert_eq!(buf.into_owned(), vec![10, 11, 12, 13]);
}
