use r4::misc::Either;
use r4::stream::StdoutStream;
use r4::stream::Stream;

#[test]
fn stdout_stream_starts_open() {
    let mut s = StdoutStream::new();
    assert!(!s.rclosed());
    s.write_line("a line for standard output".to_string());
    assert!(!s.rclosed());
    s.close();
    assert!(!s.rclosed());
}

#[test]
fn either_map_left() {
    let l: Either<i32, String> = Either::Left(41);
    match l.map_left(|x| x + 1) {
        Either::Left(v) => assert_eq!(v, 42),
        Either::Right(_) => panic!("a Left must stay a Left"),
    }
    let r: Either<i32, String> = Either::Right("kept".to_string());
    match r.map_left(|x| x + 1) {
        Either::Right(v) => assert_eq!(v, "kept"),
        Either::Left(_) => panic!("a Right must stay a Right"),
    }
}

#[test]
fn either_convert_r_mut() {
    let mut e: Either<i32, String> = Either::Left(5);
    {
        let r = e.convert_r_mut(|l| l.to_string());
        assert_eq!(r, "5");
        r.push('!');
    }
    match &e {
        Either::Right(s) => assert_eq!(s, "5!"),
        Either::Left(_) => panic!("conversion must leave a Right behind"),
    }
    {
        let r = e.convert_r_mut(|_| panic!("an existing Right is not converted"));
        assert_eq!(r, "5!");
    }
}

#[test]
fn stream_wrapper_builds_fresh_stages() {
    let w = r4::stream::StreamWrapper::new(StdoutStream::new);
    let mut a = w.stream();
    let mut b = w.stream();
    a.rclosed = true;
    assert!(a.rclosed());
    assert!(!b.rclosed());
}
