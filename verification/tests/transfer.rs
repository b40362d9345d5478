use trickster::error::TransferError;
use trickster::locator::{NameRead, ProcessTable, TableEntry};
use trickster::Process;
use trickster::errno::EPERM;
use trickster::transfer::{complete_read, judge_transfer, read_bytes, write_bytes, write_over};

fn own_pid() -> i32 {
    nix::unistd::getpid().as_raw()
}

fn this_process() -> Process {
    let table = ProcessTable::Listed(vec![TableEntry {
        file_name: own_pid().to_string(),
        comm: NameRead::Recorded(String::from("self\n")),
    }]);
    Process::new("self", &table).unwrap()
}

#[test]
fn transfer_of_all_bytes_is_done() {
    assert_eq!(judge_transfer(0x1000, 8, Ok(8)), Ok(()));
    assert_eq!(judge_transfer(0x1000, 0, Ok(0)), Ok(()));
}

#[test]
fn transfer_of_fewer_bytes_is_partial() {
    assert_eq!(
        judge_transfer(0x1000, 8, Ok(3)),
        Err(TransferError::PartialTransfer { address: 0x1000, requested: 8, transferred: 3 })
    );
    assert_eq!(
        judge_transfer(0x1000, 8, Ok(0)),
        Err(TransferError::PartialTransfer { address: 0x1000, requested: 8, transferred: 0 })
    );
    assert_eq!(
        judge_transfer(0x1000, 8, Ok(9)),
        Err(TransferError::PartialTransfer { address: 0x1000, requested: 8, transferred: 9 })
    );
}

#[test]
fn refused_transfer_is_a_permission_error() {
    assert_eq!(EPERM, nix::errno::Errno::EPERM as i32);
    assert_eq!(
        judge_transfer(0x2000, 4, Err(EPERM)),
        Err(TransferError::Permission { address: 0x2000 })
    );
}

#[test]
fn other_error_numbers_are_syscall_failures() {
    let efault = nix::errno::Errno::EFAULT as i32;
    assert_eq!(
        judge_transfer(0x2000, 4, Err(efault)),
        Err(TransferError::SyscallFailure { address: 0x2000, errno: efault })
    );
    assert_eq!(
        judge_transfer(0x2000, 4, Err(0)),
        Err(TransferError::SyscallFailure { address: 0x2000, errno: 0 })
    );
}

#[test]
fn partial_read_hands_out_no_buffer() {
    let buffer = vec![1u8, 2, 3, 4];
    assert_eq!(
        complete_read(0x10, 4, Ok(2), buffer.clone()),
        Err(TransferError::PartialTransfer { address: 0x10, requested: 4, transferred: 2 })
    );
    assert_eq!(complete_read(0x10, 4, Ok(4), buffer.clone()), Ok(buffer.clone()));
    assert_eq!(
        complete_read(0x10, 4, Err(EPERM), buffer),
        Err(TransferError::Permission { address: 0x10 })
    );
}

#[test]
fn read_of_own_memory_gives_the_bytes() {
    let value: Vec<u8> = vec![0x39, 0x05, 0x00, 0x00, 0xaa, 0xbb];
    let address = value.as_ptr() as usize;
    assert_eq!(read_bytes(own_pid(), address, 6), Ok(value.clone()));
    assert_eq!(read_bytes(own_pid(), address + 1, 3), Ok(vec![0x05, 0x00, 0x00]));
    assert_eq!(read_bytes(own_pid(), address, 0), Ok(vec![]));
}

#[test]
fn write_then_read_gives_back_the_bytes_written() {
    let process = this_process();
    let mut target: Vec<u8> = vec![0u8; 4];
    let address = target.as_mut_ptr() as usize;
    assert_eq!(process.read_memory::<u32>(address), Ok(vec![0, 0, 0, 0]));
    assert_eq!(process.write_memory::<u32>(address, vec![10, 0, 0xfe, 0xff]), Ok(()));
    assert_eq!(process.read_memory::<u32>(address), Ok(vec![10, 0, 0xfe, 0xff]));
    assert_eq!(*std::hint::black_box(&target), vec![10, 0, 0xfe, 0xff]);
    assert_eq!(process.read_memory::<u16>(address + 2), Ok(vec![0xfe, 0xff]));
    assert_eq!(process.read_memory::<u8>(address), Ok(vec![10]));
    assert_eq!(process.read_memory::<()>(address), Ok(vec![]));
}

#[test]
fn write_bytes_changes_exactly_the_bytes_asked_for() {
    let mut target: Vec<u8> = vec![1, 2, 3, 4, 5, 6];
    let address = target.as_mut_ptr() as usize;
    assert_eq!(write_bytes(own_pid(), address + 1, &vec![7, 8, 9]), Ok(()));
    assert_eq!(*std::hint::black_box(&target), vec![1, 7, 8, 9, 5, 6]);
    assert_eq!(read_bytes(own_pid(), address, 6), Ok(vec![1, 7, 8, 9, 5, 6]));
}

#[test]
fn typed_write_asks_for_the_size_of_the_type() {
    let process = this_process();
    let mut target: Vec<u8> = vec![0u8; 8];
    let address = target.as_mut_ptr() as usize;
    assert_eq!(process.write_memory::<u16>(address, vec![1, 2, 3, 4]), Ok(()));
    assert_eq!(*std::hint::black_box(&target), vec![1, 2, 0, 0, 0, 0, 0, 0]);
    assert_eq!(
        process.write_memory::<u32>(address, vec![9, 9]),
        Err(TransferError::PartialTransfer { address, requested: 4, transferred: 2 })
    );
}

#[test]
fn read_of_unmapped_memory_fails() {
    let efault = nix::errno::Errno::EFAULT as i32;
    assert_eq!(
        read_bytes(own_pid(), 8, 4),
        Err(TransferError::SyscallFailure { address: 8, errno: efault })
    );
    assert_eq!(
        write_bytes(own_pid(), 8, &vec![1, 2]),
        Err(TransferError::SyscallFailure { address: 8, errno: efault })
    );
}

#[test]
fn read_of_a_missing_process_fails() {
    let esrch = nix::errno::Errno::ESRCH as i32;
    let value: Vec<u8> = vec![1, 2, 3, 4];
    let address = value.as_ptr() as usize;
    assert_eq!(
        read_bytes(i32::MAX, address, 4),
        Err(TransferError::SyscallFailure { address, errno: esrch })
    );
}

#[test]
fn write_over_fewer_bytes_than_the_buffer_holds_moves_that_many() {
    let mut target: Vec<u8> = vec![0u8; 6];
    let address = target.as_mut_ptr() as usize;
    assert_eq!(write_over(own_pid(), address, 2, &vec![5, 6, 7, 8]), Ok(()));
    assert_eq!(*std::hint::black_box(&target), vec![5, 6, 0, 0, 0, 0]);
    assert_eq!(
        write_over(own_pid(), address, 4, &vec![9]),
        Err(TransferError::PartialTransfer { address, requested: 4, transferred: 1 })
    );
    assert_eq!(write_bytes(own_pid(), address, &vec![]), Ok(()));
}
