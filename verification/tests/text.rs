use nix::errno::Errno;
use trickster::locator::NameRead;
use trickster::number::{digit_of, Radix};
use trickster::text::{chars_of, is_white_space_char};

#[test]
fn characters_of_a_string_in_order() {
    assert_eq!(chars_of(""), Vec::<char>::new());
    assert_eq!(
        chars_of("a\u{e4}\u{4e2d}\u{1f600}\n"),
        vec!['a', '\u{e4}', '\u{4e2d}', '\u{1f600}', '\n']
    );
}

#[test]
fn white_space_is_what_the_standard_library_trims() {
    for code in 0..=0x10ffffu32 {
        if let Some(c) = char::from_u32(code) {
            assert_eq!(is_white_space_char(c), c.is_whitespace(), "U+{:04X}", code);
        }
    }
}

#[test]
fn digits_of_both_bases() {
    for (i, c) in "0123456789".chars().enumerate() {
        assert_eq!(digit_of(c, Radix::Decimal), Some(i));
        assert_eq!(digit_of(c, Radix::Hexadecimal), Some(i));
    }
    for (i, c) in "abcdef".chars().enumerate() {
        assert_eq!(digit_of(c, Radix::Decimal), None);
        assert_eq!(digit_of(c, Radix::Hexadecimal), Some(10 + i));
        assert_eq!(digit_of(c.to_ascii_uppercase(), Radix::Hexadecimal), Some(10 + i));
    }
    for c in ['g', 'G', '/', ':', '@', '`', ' ', '+', '-', 'x', '\u{663}', '\u{ff11}'] {
        assert_eq!(digit_of(c, Radix::Decimal), None);
        assert_eq!(digit_of(c, Radix::Hexadecimal), None);
    }
}

#[test]
fn digits_are_those_of_the_standard_library() {
    for code in 0..=0x10ffffu32 {
        if let Some(c) = char::from_u32(code) {
            assert_eq!(digit_of(c, Radix::Decimal), c.to_digit(10).map(|d| d as usize));
            assert_eq!(digit_of(c, Radix::Hexadecimal), c.to_digit(16).map(|d| d as usize));
        }
    }
}

#[test]
fn failed_read_of_a_vanished_process_is_passed_over() {
    assert_eq!(NameRead::from_failure(Some(Errno::ENOENT as i32)), NameRead::Unreadable);
    assert_eq!(NameRead::from_failure(Some(Errno::ESRCH as i32)), NameRead::Unreadable);
    assert_eq!(NameRead::from_failure(Some(Errno::EACCES as i32)), NameRead::Unreadable);
    assert_eq!(NameRead::from_failure(Some(Errno::EPERM as i32)), NameRead::Unreadable);
}

#[test]
fn other_failed_reads_end_the_enumeration() {
    assert_eq!(NameRead::from_failure(Some(Errno::EIO as i32)), NameRead::Failed);
    assert_eq!(NameRead::from_failure(Some(Errno::ENOTDIR as i32)), NameRead::Failed);
    assert_eq!(NameRead::from_failure(Some(0)), NameRead::Failed);
    assert_eq!(NameRead::from_failure(None), NameRead::Failed);
}
