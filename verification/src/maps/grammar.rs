//! What a line of a memory map says: where its fields stand, what they
//! spell, and which region they describe.

use vstd::prelude::*;

use crate::memory_region::{RegionPermissions, RegionView};
use crate::number::{digit_value, spelled, spelled_with_sign, Radix};

verus! {

/// The characters that separate the fields of a record.
pub open spec fn is_blank(c: char) -> bool {
    c == ' ' || c == '\t' || c == '\n' || c == '\r'
}

/// The first place at or after `i` that holds no blank; the end of `s`
/// where only blanks follow.
pub open spec fn skip_blanks(s: Seq<char>, i: int) -> int
    decreases s.len() - i,
{
    if 0 <= i < s.len() && is_blank(s[i]) {
        skip_blanks(s, i + 1)
    } else {
        i
    }
}

/// Where the token that starts at `i` ends: at the first blank, at the
/// first `stop` if one is given, or at the end of `s`.
pub open spec fn token_end(s: Seq<char>, i: int, stop: Option<char>) -> int
    decreases s.len() - i,
{
    if 0 <= i < s.len() && !is_blank(s[i]) && stop != Some(s[i]) {
        token_end(s, i + 1, stop)
    } else {
        i
    }
}

/// Where the run of digits of `radix` that starts at `i` ends.
pub open spec fn digits_end(s: Seq<char>, i: int, radix: Radix) -> int
    decreases s.len() - i,
{
    if 0 <= i < s.len() && digit_value(s[i], radix) is Some {
        digits_end(s, i + 1, radix)
    } else {
        i
    }
}

/// A number read from a line: what it spells, if anything, and the place
/// behind it.
pub struct NumberField {
    pub value: Option<nat>,
    pub end: int,
}

/// The hexadecimal field that starts at `i`: an optional `0x`, then the
/// longest run of hexadecimal digits. It spells a number if the run is
/// not empty and its value fits the address width.
pub open spec fn hex_field(s: Seq<char>, i: int) -> NumberField {
    let digits = if i + 1 < s.len() && s[i] == '0' && s[i + 1] == 'x' {
        i + 2
    } else {
        i
    };
    let end = digits_end(s, digits, Radix::Hexadecimal);
    NumberField {
        value: spelled(s.subrange(digits, end), Radix::Hexadecimal, usize::MAX as nat),
        end,
    }
}

/// The number field that starts at `i` and runs to the next blank or
/// `stop`: digits of `radix`, with an optional `+` before them. It spells
/// a number if there is a digit, nothing but digits, and the value is at
/// most `max`.
pub open spec fn token_field(
    s: Seq<char>,
    i: int,
    stop: Option<char>,
    radix: Radix,
    max: nat,
) -> NumberField {
    let end = token_end(s, i, stop);
    NumberField { value: spelled_with_sign(s.subrange(i, end), radix, max), end }
}

/// The permissions that a permission field grants. Each of the first four
/// places has its own letter, `r`, `w`, `x` and `s` in this order; a
/// place that holds anything else, or is missing, grants nothing.
pub open spec fn permissions_of(field: Seq<char>) -> RegionPermissions {
    RegionPermissions {
        readable: field.len() > 0 && field[0] == 'r',
        writeable: field.len() > 1 && field[1] == 'w',
        executable: field.len() > 2 && field[2] == 'x',
        shared: field.len() > 3 && field[3] == 's',
    }
}

/// Where the fields of the line `s` stand, and what the numbers spell.
pub struct LineLayout {
    pub start: NumberField,
    pub dash: int,
    pub end: NumberField,
    pub perms_at: int,
    pub perms_end: int,
    pub offset: NumberField,
    pub major: NumberField,
    pub colon: int,
    pub minor: NumberField,
    pub inode: NumberField,
    pub path_at: int,
    pub path_end: int,
}

/// The layout of the line `s`: each field starts behind the blanks that
/// follow the field before it.
pub open spec fn line_layout(s: Seq<char>) -> LineLayout {
    let start = hex_field(s, skip_blanks(s, 0));
    let dash = skip_blanks(s, start.end);
    let end = hex_field(s, skip_blanks(s, dash + 1));
    let perms_at = skip_blanks(s, end.end);
    let perms_end = token_end(s, perms_at, None);
    let offset = hex_field(s, skip_blanks(s, perms_end));
    let major = token_field(
        s,
        skip_blanks(s, offset.end),
        Some(':'),
        Radix::Hexadecimal,
        u8::MAX as nat,
    );
    let colon = skip_blanks(s, major.end);
    let minor = token_field(
        s,
        skip_blanks(s, colon + 1),
        None,
        Radix::Hexadecimal,
        u8::MAX as nat,
    );
    let inode = token_field(s, skip_blanks(s, minor.end), None, Radix::Decimal, usize::MAX as nat);
    let path_at = skip_blanks(s, inode.end);
    let path_end = token_end(s, path_at, None);
    LineLayout {
        start,
        dash,
        end,
        perms_at,
        perms_end,
        offset,
        major,
        colon,
        minor,
        inode,
        path_at,
        path_end,
    }
}

/// Whether the line `s` is a record: every number is spelled, `-` and `:`
/// stand in their places, and the bounds are in order. A line that ends
/// before its inode is no record, so the permission field of a record is
/// never empty.
pub open spec fn is_record(s: Seq<char>) -> bool {
    let l = line_layout(s);
    &&& l.start.value is Some
    &&& l.dash < s.len() && s[l.dash] == '-'
    &&& l.end.value is Some
    &&& l.offset.value is Some
    &&& l.major.value is Some
    &&& l.colon < s.len() && s[l.colon] == ':'
    &&& l.minor.value is Some
    &&& l.inode.value is Some
    &&& l.start.value->0 <= l.end.value->0
}

/// The region that the line `s` describes, if the line is a record. The
/// path is the first token behind the inode; without one the region is
/// anonymous.
pub open spec fn line_region(s: Seq<char>) -> Option<RegionView> {
    let l = line_layout(s);
    if is_record(s) {
        Some(
            RegionView {
                start: l.start.value->0 as usize,
                end: l.end.value->0 as usize,
                permissions: permissions_of(s.subrange(l.perms_at, l.perms_end)),
                offset: l.offset.value->0 as usize,
                dev_major: l.major.value->0 as u8,
                dev_minor: l.minor.value->0 as u8,
                inode: l.inode.value->0 as usize,
                path: if l.path_at < s.len() {
                    Some(s.subrange(l.path_at, l.path_end))
                } else {
                    None
                },
            },
        )
    } else {
        None
    }
}

/// The bounds of every region that a line describes are in order.
pub proof fn lemma_region_of_line_is_well_formed(s: Seq<char>)
    ensures
        line_region(s) matches Some(region) ==> region.well_formed(),
{
}

/// A permission field as the operating system writes it: in each of the
/// first three places the letter of a permission that is granted, or `-`;
/// in the fourth `s` for a shared region, or `private` for one that is not.
pub open spec fn permission_field(permissions: RegionPermissions, private: char) -> Seq<char> {
    seq![
        if permissions.readable {
            'r'
        } else {
            '-'
        },
        if permissions.writeable {
            'w'
        } else {
            '-'
        },
        if permissions.executable {
            'x'
        } else {
            '-'
        },
        if permissions.shared {
            's'
        } else {
            private
        },
    ]
}

/// Reading a permission field gives back the permissions it was written
/// from: each one is granted exactly where its letter stands, whatever
/// marks a private region.
pub proof fn lemma_permission_field_round_trip(permissions: RegionPermissions, private: char)
    requires
        private != 's',
    ensures
        permissions_of(permission_field(permissions, private)) == permissions,
{
}

/// A record whose permission field was written from `permissions`
/// describes a region with exactly these permissions.
pub proof fn lemma_record_permissions(s: Seq<char>, permissions: RegionPermissions, private: char)
    requires
        private != 's',
        is_record(s),
        s.subrange(line_layout(s).perms_at, line_layout(s).perms_end) == permission_field(
            permissions,
            private,
        ),
    ensures
        line_region(s) matches Some(region) && region.permissions == permissions,
{
    lemma_permission_field_round_trip(permissions, private);
}

} // verus!
