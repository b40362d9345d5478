//! Reading one line of a memory map, field by field.

use vstd::prelude::*;

use crate::maps::grammar::{
    digits_end,
    hex_field,
    is_blank,
    line_region,
    permissions_of,
    skip_blanks,
    token_end,
    token_field,
};
use crate::memory_region::{MemoryRegion, RegionPermissions};
use crate::number::{digit_of, parse_digits, Radix};
use crate::text::{chars_of, string_of};

verus! {

/// Whether `c` separates fields.
fn is_blank_char(c: char) -> (blank: bool)
    ensures
        blank == is_blank(c),
{
    c == ' ' || c == '\t' || c == '\n' || c == '\r'
}

/// The first place at or after `from` that holds no blank.
fn skip_blanks_from(chars: &Vec<char>, from: usize) -> (at: usize)
    requires
        from <= chars@.len(),
    ensures
        at == skip_blanks(chars@, from as int),
        from <= at <= chars@.len(),
{
    let mut i: usize = from;
    while i < chars.len() && is_blank_char(chars[i])
        invariant
            from <= i <= chars@.len(),
            skip_blanks(chars@, from as int) == skip_blanks(chars@, i as int),
        decreases chars@.len() - i,
    {
        i = i + 1;
    }
    i
}

/// Where the token that starts at `from` ends.
fn token_end_from(chars: &Vec<char>, from: usize, stop: Option<char>) -> (end: usize)
    requires
        from <= chars@.len(),
    ensures
        end == token_end(chars@, from as int, stop),
        from <= end <= chars@.len(),
{
    let mut i: usize = from;
    while i < chars.len() && !is_blank_char(chars[i]) && !is_stop(chars[i], stop)
        invariant
            from <= i <= chars@.len(),
            token_end(chars@, from as int, stop) == token_end(chars@, i as int, stop),
        decreases chars@.len() - i,
    {
        i = i + 1;
    }
    i
}

/// Whether `c` is the character at which a token is to stop.
fn is_stop(c: char, stop: Option<char>) -> (stops: bool)
    ensures
        stops == (stop == Some(c)),
{
    match stop {
        Some(s) => s == c,
        None => false,
    }
}

/// Where the run of digits of `radix` that starts at `from` ends.
fn digits_end_from(chars: &Vec<char>, from: usize, radix: Radix) -> (end: usize)
    requires
        from <= chars@.len(),
    ensures
        end == digits_end(chars@, from as int, radix),
        from <= end <= chars@.len(),
{
    let mut i: usize = from;
    while i < chars.len() && digit_of(chars[i], radix).is_some()
        invariant
            from <= i <= chars@.len(),
            digits_end(chars@, from as int, radix) == digits_end(chars@, i as int, radix),
        decreases chars@.len() - i,
    {
        i = i + 1;
    }
    i
}

/// Reads the hexadecimal field that starts at `from`: the number it
/// spells, if any, and the place behind it.
fn read_hex_field(chars: &Vec<char>, from: usize) -> (field: (Option<usize>, usize))
    requires
        from <= chars@.len(),
    ensures
        field.1 == hex_field(chars@, from as int).end,
        from <= field.1 <= chars@.len(),
        match field.0 {
            Some(n) => hex_field(chars@, from as int).value == Some(n as nat),
            None => hex_field(chars@, from as int).value is None,
        },
{
    let prefixed = from < chars.len() && chars.len() - from > 1 && chars[from] == '0' && chars[from
        + 1] == 'x';
    let digits: usize = if prefixed {
        from + 2
    } else {
        from
    };
    let end = digits_end_from(chars, digits, Radix::Hexadecimal);
    (parse_digits(chars, digits, end, Radix::Hexadecimal, usize::MAX), end)
}

/// Reads the number field that starts at `from` and runs to the next
/// blank or `stop`: the number it spells, if any, and the place behind it.
fn read_token_field(
    chars: &Vec<char>,
    from: usize,
    stop: Option<char>,
    radix: Radix,
    max: usize,
) -> (field: (Option<usize>, usize))
    requires
        from <= chars@.len(),
    ensures
        field.1 == token_field(chars@, from as int, stop, radix, max as nat).end,
        from <= field.1 <= chars@.len(),
        match field.0 {
            Some(n) => token_field(chars@, from as int, stop, radix, max as nat).value == Some(
                n as nat,
            ),
            None => token_field(chars@, from as int, stop, radix, max as nat).value is None,
        },
{
    let end = token_end_from(chars, from, stop);
    let signed = from < end && chars[from] == '+';
    let digits: usize = if signed {
        from + 1
    } else {
        from
    };
    proof {
        let token = chars@.subrange(from as int, end as int);
        if signed {
            assert(token.skip(1) == chars@.subrange(digits as int, end as int));
        }
    }
    (parse_digits(chars, digits, end, radix, max), end)
}

/// Reads the permissions that the field from `from` up to `to` grants.
fn read_permissions(chars: &Vec<char>, from: usize, to: usize) -> (permissions:
    RegionPermissions)
    requires
        from <= to <= chars@.len(),
    ensures
        permissions == permissions_of(chars@.subrange(from as int, to as int)),
{
    let n: usize = to - from;
    RegionPermissions {
        readable: n > 0 && chars[from] == 'r',
        writeable: n > 1 && chars[from + 1] == 'w',
        executable: n > 2 && chars[from + 2] == 'x',
        shared: n > 3 && chars[from + 3] == 's',
    }
}

/// Reads the line `chars` as a record.
pub fn read_line(chars: &Vec<char>) -> (region: Option<MemoryRegion>)
    ensures
        match region {
            Some(r) => line_region(chars@) == Some(r@),
            None => line_region(chars@) is None,
        },
{
    let n: usize = chars.len();
    let start_at = skip_blanks_from(chars, 0);
    let (start, behind) = read_hex_field(chars, start_at);
    let dash = skip_blanks_from(chars, behind);
    if dash >= n || chars[dash] != '-' {
        return None;
    }
    let end_at = skip_blanks_from(chars, dash + 1);
    let (end, behind) = read_hex_field(chars, end_at);
    let perms_at = skip_blanks_from(chars, behind);
    let perms_end = token_end_from(chars, perms_at, None);
    let offset_at = skip_blanks_from(chars, perms_end);
    let (offset, behind) = read_hex_field(chars, offset_at);
    let major_at = skip_blanks_from(chars, behind);
    let (major, behind) = read_token_field(
        chars,
        major_at,
        Some(':'),
        Radix::Hexadecimal,
        u8::MAX as usize,
    );
    let colon = skip_blanks_from(chars, behind);
    if colon >= n || chars[colon] != ':' {
        return None;
    }
    let minor_at = skip_blanks_from(chars, colon + 1);
    let (minor, behind) = read_token_field(
        chars,
        minor_at,
        None,
        Radix::Hexadecimal,
        u8::MAX as usize,
    );
    let inode_at = skip_blanks_from(chars, behind);
    let (inode, behind) = read_token_field(chars, inode_at, None, Radix::Decimal, usize::MAX);
    let path_at = skip_blanks_from(chars, behind);
    let path_end = token_end_from(chars, path_at, None);
    match (start, end, offset, major, minor, inode) {
        (Some(start), Some(end), Some(offset), Some(major), Some(minor), Some(inode)) => {
            if start > end {
                return None;
            }
            let path = if path_at < n {
                Some(string_of(chars, path_at, path_end))
            } else {
                None
            };
            Some(
                MemoryRegion {
                    start,
                    end,
                    permissions: read_permissions(chars, perms_at, perms_end),
                    offset,
                    dev_major: major as u8,
                    dev_minor: minor as u8,
                    inode,
                    path,
                },
            )
        },
        _ => None,
    }
}

impl MemoryRegion {
    /// Reads one line of a memory map. `None` says that the line is no
    /// record.
    pub fn from_line(line: &str) -> (region: Option<MemoryRegion>)
        ensures
            match region {
                Some(r) => line_region(line@) == Some(r@),
                None => line_region(line@) is None,
            },
    {
        let chars = chars_of(line);
        read_line(&chars)
    }
}

} // verus!
