//! Finding a process in a listing of the process table.
//!
//! The table is handed over as plain values: for each entry the name under
//! which the table lists it and what reading its short name gave. The walk
//! over it decides which entry, if any, is the process asked for.

use vstd::prelude::*;

use crate::errno::{EACCES, ENOENT, EPERM, ESRCH};
use crate::error::LookupError;
use crate::number::{parse_digits, spelled, Radix};
use crate::text::{chars_of, range_equals, trim_end, trimmed_len_of};

verus! {

/// What reading the short name of a process gave.
#[derive(Debug, PartialEq, Eq)]
pub enum NameRead {
    /// The name as it is recorded, with the line end that follows it.
    Recorded(String),
    /// The process is gone, or its name may not be read: the entry is
    /// passed over.
    Unreadable,
    /// The read broke in a way that ends the enumeration.
    Failed,
}

/// What a read of a short name that failed with `errno` gave; `None`
/// stands for a failure without an error number. A process that is gone
/// (`ENOENT`, `ESRCH`), or a name that may not be read (`EPERM`,
/// `EACCES`), is no failure of the enumeration; any other failure is.
pub open spec fn failed_read(errno: Option<i32>) -> NameRead {
    match errno {
        Some(e) => if e == EPERM || e == ENOENT || e == ESRCH || e == EACCES {
            NameRead::Unreadable
        } else {
            NameRead::Failed
        },
        None => NameRead::Failed,
    }
}

/// One entry of the process table.
#[derive(Debug, PartialEq, Eq)]
pub struct TableEntry {
    /// The name under which the table lists the entry; for a process, its
    /// pid in decimal.
    pub file_name: String,
    /// What reading the short name of the entry gave.
    pub comm: NameRead,
}

/// What listing the process table gave.
#[derive(Debug, PartialEq, Eq)]
pub enum ProcessTable {
    /// The table could not be listed.
    Unlisted,
    /// The entries in the order of the enumeration.
    Listed(Vec<TableEntry>),
}

/// What one entry means to the search for a name.
#[derive(Clone, Copy, Debug, PartialEq, Eq, Structural)]
pub enum Verdict {
    /// The entry is not the process asked for.
    Skip,
    /// The entry is the process asked for, and this is its pid.
    Match(i32),
    /// The entry ends the enumeration with a failure.
    Fail,
}

/// The pid that the entry name `file_name` spells: decimal digits and
/// nothing else, with a value from 1 to the largest pid.
pub open spec fn pid_of_name(file_name: Seq<char>) -> Option<i32> {
    match spelled(file_name, Radix::Decimal, i32::MAX as nat) {
        Some(n) => if n > 0 {
            Some(n as i32)
        } else {
            None
        },
        None => None,
    }
}

/// What `entry` means to the search for `name`. An entry whose name spells
/// no pid is passed over, whatever reading it gave. Of the others, one
/// whose recorded name, without the white space at its end, is `name`
/// matches; one whose read failed ends the enumeration.
pub open spec fn entry_verdict(entry: TableEntry, name: Seq<char>) -> Verdict {
    match pid_of_name(entry.file_name@) {
        None => Verdict::Skip,
        Some(pid) => match entry.comm {
            NameRead::Recorded(recorded) => if trim_end(recorded@) == name {
                Verdict::Match(pid)
            } else {
                Verdict::Skip
            },
            NameRead::Unreadable => Verdict::Skip,
            NameRead::Failed => Verdict::Fail,
        },
    }
}

/// Whether `i` is the first entry of `entries` that is not passed over.
pub open spec fn is_first_decisive(entries: Seq<TableEntry>, name: Seq<char>, i: int) -> bool {
    &&& 0 <= i < entries.len()
    &&& entry_verdict(entries[i], name) != Verdict::Skip
    &&& forall|j: int| 0 <= j < i ==> entry_verdict(#[trigger] entries[j], name) == Verdict::Skip
}

/// What the walk over `entries` in search of `name` gives: the index of
/// the entry that is the process, or why none is. The first entry that is
/// not passed over decides, by matching or by failing.
pub open spec fn table_search(entries: Seq<TableEntry>, name: Seq<char>) -> Result<
    int,
    LookupError,
> {
    if exists|i: int| is_first_decisive(entries, name, i) {
        let first = choose|i: int| is_first_decisive(entries, name, i);
        match entry_verdict(entries[first], name) {
            Verdict::Match(_) => Ok(first),
            _ => Err(LookupError::EnumerationFailed),
        }
    } else {
        Err(LookupError::NotFound)
    }
}

/// What the search for `name` in `table` gives. A table that could not be
/// listed fails the search.
pub open spec fn lookup(table: ProcessTable, name: Seq<char>) -> Result<int, LookupError> {
    match table {
        ProcessTable::Unlisted => Err(LookupError::EnumerationFailed),
        ProcessTable::Listed(entries) => table_search(entries@, name),
    }
}

/// Only one entry is the first that is not passed over.
pub proof fn lemma_first_decisive_is_unique(
    entries: Seq<TableEntry>,
    name: Seq<char>,
    i: int,
    j: int,
)
    requires
        is_first_decisive(entries, name, i),
        is_first_decisive(entries, name, j),
    ensures
        i == j,
{
    if i < j {
        assert(entry_verdict(entries[i], name) == Verdict::Skip);
    }
    if j < i {
        assert(entry_verdict(entries[j], name) == Verdict::Skip);
    }
}

/// The first entry that is not passed over decides the search, alone: the
/// process found is the first match of the enumeration, never a later
/// one, and what stands behind a failed read is not looked at.
pub proof fn lemma_first_decisive_decides(entries: Seq<TableEntry>, name: Seq<char>, first: int)
    requires
        is_first_decisive(entries, name, first),
    ensures
        table_search(entries, name) == (match entry_verdict(entries[first], name) {
            Verdict::Match(_) => Ok::<int, LookupError>(first),
            _ => Err::<int, LookupError>(LookupError::EnumerationFailed),
        }),
{
    let chosen = choose|i: int| is_first_decisive(entries, name, i);
    lemma_first_decisive_is_unique(entries, name, first, chosen);
}

/// Where every entry is passed over, no process is found.
pub proof fn lemma_all_passed_over(entries: Seq<TableEntry>, name: Seq<char>)
    requires
        forall|i: int|
            0 <= i < entries.len() ==> entry_verdict(#[trigger] entries[i], name) == Verdict::Skip,
    ensures
        table_search(entries, name) == Err::<int, LookupError>(LookupError::NotFound),
{
}

impl NameRead {
    /// What a read of a short name that failed with `errno` gave.
    pub fn from_failure(errno: Option<i32>) -> (read: NameRead)
        ensures
            read == failed_read(errno),
    {
        match errno {
            Some(e) => if e == EPERM || e == ENOENT || e == ESRCH || e == EACCES {
                NameRead::Unreadable
            } else {
                NameRead::Failed
            },
            None => NameRead::Failed,
        }
    }
}

/// The pid that the entry name `file_name` spells.
pub fn entry_pid(file_name: &str) -> (pid: Option<i32>)
    ensures
        pid == pid_of_name(file_name@),
        pid matches Some(p) ==> p > 0,
{
    let chars = chars_of(file_name);
    assert(chars@.subrange(0, chars@.len() as int) == chars@);
    match parse_digits(&chars, 0, chars.len(), Radix::Decimal, 0x7fff_ffff) {
        Some(n) => if n > 0 {
            Some(n as i32)
        } else {
            None
        },
        None => None,
    }
}

/// What `entry` means to the search for the name spelled by `name`.
fn judge_entry(entry: &TableEntry, name: &Vec<char>) -> (verdict: Verdict)
    ensures
        verdict == entry_verdict(*entry, name@),
        verdict matches Verdict::Match(pid) ==> pid > 0 && entry.comm is Recorded,
{
    match entry_pid(entry.file_name.as_str()) {
        None => Verdict::Skip,
        Some(pid) => match &entry.comm {
            NameRead::Recorded(recorded) => {
                let chars = chars_of(recorded.as_str());
                let len = trimmed_len_of(&chars);
                if range_equals(&chars, 0, len, name) {
                    Verdict::Match(pid)
                } else {
                    Verdict::Skip
                }
            },
            NameRead::Unreadable => Verdict::Skip,
            NameRead::Failed => Verdict::Fail,
        },
    }
}

/// Walks over `entries` in search of the process named `name`: the index
/// of its entry and its pid.
pub fn locate(entries: &Vec<TableEntry>, name: &str) -> (found: Result<(usize, i32), LookupError>)
    ensures
        match table_search(entries@, name@) {
            Ok(i) => found matches Ok((index, pid)) && index == i && 0 <= i < entries@.len()
                && entry_verdict(entries@[i], name@) == Verdict::Match(pid) && pid > 0
                && entries@[i].comm is Recorded,
            Err(e) => found == Err::<(usize, i32), LookupError>(e),
        },
{
    let wanted = chars_of(name);
    let mut i: usize = 0;
    while i < entries.len()
        invariant
            i <= entries@.len(),
            wanted@ == name@,
            forall|j: int|
                0 <= j < i ==> entry_verdict(#[trigger] entries@[j], name@) == Verdict::Skip,
        decreases entries@.len() - i,
    {
        match judge_entry(&entries[i], &wanted) {
            Verdict::Skip => {},
            Verdict::Fail => {
                proof {
                    assert(is_first_decisive(entries@, name@, i as int));
                    lemma_first_decisive_decides(entries@, name@, i as int);
                }
                return Err(LookupError::EnumerationFailed);
            },
            Verdict::Match(pid) => {
                proof {
                    assert(is_first_decisive(entries@, name@, i as int));
                    lemma_first_decisive_decides(entries@, name@, i as int);
                }
                return Ok((i, pid));
            },
        }
        i = i + 1;
    }
    proof {
        lemma_all_passed_over(entries@, name@);
    }
    Err(LookupError::NotFound)
}

} // verus!
