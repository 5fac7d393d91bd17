use rssh::buf::AsyncBuf;

#[test]
fn async_buf_try_write_all() {
    let mut buf = AsyncBuf::with_capacity(8);
    assert_eq!(true, buf.try_write_all(b"Hello"));
    assert_eq!(&b"Hello"[..], buf.get_ref());
}

#[test]
fn async_buf_write_all() {
    let mut buf = AsyncBuf::with_capacity(8);
    assert_eq!(true, buf.try_write_all(b"Hello"));
    assert_eq!(false, buf.try_write_all(b", world!"));
    assert_eq!(&b"Hello"[..], buf.get_ref());
    buf.write_all(b", world!");
    assert_eq!(&b"Hello, world!"[..], buf.get_ref());
}

#[test]
fn async_buf_try_reserve() {
    let mut buf = AsyncBuf::with_capacity(8);
    assert_eq!(0, buf.data_size());
    assert_eq!(true, buf.try_write_all(b"Hello"));
    assert_eq!(5, buf.data_size());
    assert_eq!(b"Hell".to_vec(), buf.consume_and_get(4));
    assert_eq!(1, buf.data_size());
    assert_eq!(true, buf.try_reserve(7));
    assert_eq!(8, buf.capacity());
    assert_eq!(&b"o"[..], buf.get_ref());
    assert_eq!(7, buf.get_mut());
}

#[test]
fn async_buf_reserve() {
    let mut buf = AsyncBuf::with_capacity(8);
    assert_eq!(true, buf.try_write_all(b"Hello"));
    assert_eq!(b"He".to_vec(), buf.consume_and_get(2));
    assert_eq!(false, buf.try_reserve(6));
    buf.reserve(6);
    assert_eq!(&b"llo"[..], buf.get_ref());
    assert!(buf.get_mut() >= 6);
}

#[test]
fn async_buf_consume() {
    let mut buf = AsyncBuf::with_capacity(16);
    assert_eq!(true, buf.try_write_all(b"Hello, world!"));
    buf.consume(7);
    assert_eq!(&b"world!"[..], buf.get_ref());
}

#[test]
fn async_buf_consume_all_resets_cursors() {
    let mut buf = AsyncBuf::with_capacity(16);
    assert_eq!(true, buf.try_write_all(b"Hello, world!"));
    let n = buf.data_size();
    buf.consume(n);
    assert_eq!(0, buf.data_size());
    assert!(buf.is_empty());
    // both cursors collapsed: the whole allocation is writable again
    assert_eq!(16, buf.get_mut());
}
