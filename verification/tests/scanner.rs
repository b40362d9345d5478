use trickster::{MemoryRegion, RegionPermissions};

/// The fields of a line as a format scanner cuts them, each number read by
/// the integer parser of the standard library.
fn scanned(line: &str) -> Option<MemoryRegion> {
    let mut tokens = scan_fmt::parse::scan(line, "{x}-{x} {} {x} {}:{} {} {}");
    let start = usize::from_str_radix(&tokens.next()?, 16).ok()?;
    let end = usize::from_str_radix(&tokens.next()?, 16).ok()?;
    let field: Vec<char> = tokens.next()?.chars().collect();
    let offset = usize::from_str_radix(&tokens.next()?, 16).ok()?;
    let dev_major = u8::from_str_radix(&tokens.next()?, 16).ok()?;
    let dev_minor = u8::from_str_radix(&tokens.next()?, 16).ok()?;
    let inode = tokens.next()?.parse::<usize>().ok()?;
    let path = tokens.next();
    if start > end {
        return None;
    }
    Some(MemoryRegion {
        start,
        end,
        permissions: RegionPermissions {
            readable: field.first() == Some(&'r'),
            writeable: field.get(1) == Some(&'w'),
            executable: field.get(2) == Some(&'x'),
            shared: field.get(3) == Some(&'s'),
        },
        offset,
        dev_major,
        dev_minor,
        inode,
        path,
    })
}

const PIECES: [&str; 24] = [
    "", " ", "\t", "\r", "-", ":", "0", "x", "0x", "1f", "A0", "g", "+", "7", "r-xp", "rw-s",
    "08048000", "03", "0c", "64593", "/bin/cat", "[heap]", "ffffffffffffffffffff", "256",
];

#[test]
fn fields_are_cut_as_a_format_scanner_cuts_them() {
    for line in [
        "08048000-08049000 r-xp 00000000 03:0c 64593 /bin/cat",
        "7ffff7ffe000-7ffff7fff000 rw-p 00000000 00:00 0 ",
        "00400000-00452000 r-xp 00000000 08:02 173521      /usr/bin/dbus-daemon",
        "0x1000-0x2000 rwxs 0x0 1:2 3 path with blanks",
        "1000-2000r-xp 0 1:2 3 x",
        " 1000 - 2000 r-xp 0 1 : 2 3 x ",
        "1000-2000 r-xp 03:0c 1 x",
        "1000-2000 r-xp 0003:0c 1 x",
        "0x0x10-2000 r-xp 0 1:2 3",
        "00x10-2000 r-xp 0 1:2 3",
        "x10-2000 r-xp 0 1:2 3",
        "10-x2000 r-xp 0 1:2 3",
        "10-0 r-xp 0 1:2 3",
        "0-0x r-xp 0 1:2 3",
        "10-20 r-xp 0 1:2 +3",
        "10-20 r-xp 0 +1:+2 3",
        "10-20 r-xp 0 1:2 3\n",
        "10-20 r-xp 0 1:2:3 4 5",
        "10-20 r:xp 0 1:2 3 /a:b",
        "10-20 - 0 1:2 3 -",
        "10-20",
        "",
    ] {
        assert_eq!(MemoryRegion::from_line(line), scanned(line), "line {:?}", line);
    }
}

#[test]
fn lines_pieced_together_are_cut_as_a_format_scanner_cuts_them() {
    let mut state: u64 = 0x9e3779b97f4a7c15;
    let mut records = 0;
    for round in 0..20000 {
        let mut line = String::new();
        if round % 2 == 0 {
            line.push_str("10-20 r-xp 0 1:2 3 /x");
        }
        let pieces = 1 + round % 12;
        for _ in 0..pieces {
            state = state.wrapping_mul(6364136223846793005).wrapping_add(1442695040888963407);
            let pick = (state >> 33) as usize % PIECES.len();
            let at = if round % 2 == 0 {
                (state >> 20) as usize % (line.len() + 1)
            } else {
                line.len()
            };
            line.insert_str(at, PIECES[pick]);
        }
        let region = MemoryRegion::from_line(&line);
        if region.is_some() {
            records += 1;
        }
        assert_eq!(region, scanned(&line), "line {:?}", line);
    }
    assert!(records > 100, "only {} records", records);
}
