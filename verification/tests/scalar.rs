use kernel_sysctl::scalar::PID_MAX_PATH;
use kernel_sysctl::{pid_max, IntError, ReadError, Unavailable};

#[test]
fn pid_max_reads_a_number() {
    assert_eq!(pid_max(Ok("4194304\n")), Ok(4194304));
    assert_eq!(pid_max(Ok("32768")), Ok(32768));
    assert_eq!(pid_max(Ok("0")), Ok(0));
}

#[test]
fn pid_max_trims_whitespace() {
    assert_eq!(pid_max(Ok("  32768 \t\r\n")), Ok(32768));
    assert_eq!(pid_max(Ok("\n\n32768\n\n")), Ok(32768));
    assert_eq!(pid_max(Ok("\u{b}32768\u{c}")), Ok(32768));
    assert_eq!(pid_max(Ok("\u{a0}32768\u{3000}")), Ok(32768));
    assert_eq!(pid_max(Ok("\u{85}\u{1680}\u{2000}\u{200a}\u{2028}\u{2029}\u{202f}\u{205f}7")), Ok(7));
}

#[test]
fn pid_max_keeps_what_is_no_whitespace() {
    assert_eq!(pid_max(Ok("32 768")), Err(ReadError::Malformed(IntError::Invalid)));
    assert_eq!(pid_max(Ok("\u{200b}32768")), Err(ReadError::Malformed(IntError::Invalid)));
    assert_eq!(pid_max(Ok("\u{feff}32768")), Err(ReadError::Malformed(IntError::Invalid)));
}

#[test]
fn pid_max_accepts_a_sign() {
    assert_eq!(pid_max(Ok("+32768\n")), Ok(32768));
    assert_eq!(pid_max(Ok("-1\n")), Ok(-1));
    assert_eq!(pid_max(Ok("-0\n")), Ok(0));
    assert_eq!(pid_max(Ok("-0042\n")), Ok(-42));
}

#[test]
fn pid_max_range_is_that_of_i32() {
    assert_eq!(pid_max(Ok("2147483647")), Ok(i32::MAX));
    assert_eq!(pid_max(Ok("-2147483648")), Ok(i32::MIN));
    assert_eq!(pid_max(Ok("2147483648")), Err(ReadError::Malformed(IntError::OutOfRange)));
    assert_eq!(pid_max(Ok("-2147483649")), Err(ReadError::Malformed(IntError::OutOfRange)));
    assert_eq!(
        pid_max(Ok("99999999999999999999999999999999999999999999999999")),
        Err(ReadError::Malformed(IntError::OutOfRange))
    );
    assert_eq!(
        pid_max(Ok("-340282366920938463463374607431768211456")),
        Err(ReadError::Malformed(IntError::OutOfRange))
    );
    assert_eq!(pid_max(Ok("000000000000000000000000000002147483647")), Ok(i32::MAX));
}

#[test]
fn pid_max_empty_text() {
    assert_eq!(pid_max(Ok("")), Err(ReadError::Malformed(IntError::Empty)));
    assert_eq!(pid_max(Ok("\n")), Err(ReadError::Malformed(IntError::Empty)));
    assert_eq!(pid_max(Ok("  \t ")), Err(ReadError::Malformed(IntError::Empty)));
}

#[test]
fn pid_max_invalid_text() {
    for text in ["-", "+", "+-1", "--1", "1-", "12a", "a12", "1.0", "0x10", "1e3", "\u{661}", "9999999999999x"]
        .iter()
    {
        assert_eq!(pid_max(Ok(text)), Err(ReadError::Malformed(IntError::Invalid)), "{:?}", text);
    }
}

#[test]
fn pid_max_tells_unavailable_from_malformed() {
    assert_eq!(
        pid_max(Err(Unavailable::NotFound)),
        Err(ReadError::Unavailable(Unavailable::NotFound))
    );
    assert_eq!(
        pid_max(Err(Unavailable::PermissionDenied)),
        Err(ReadError::Unavailable(Unavailable::PermissionDenied))
    );
    assert_eq!(
        pid_max(Err(Unavailable::Unreadable)),
        Err(ReadError::Unavailable(Unavailable::Unreadable))
    );
    assert_eq!(pid_max(Ok("many\n")), Err(ReadError::Malformed(IntError::Invalid)));
}

#[test]
fn pid_max_path() {
    assert_eq!(PID_MAX_PATH, "/proc/sys/kernel/pid_max");
}
