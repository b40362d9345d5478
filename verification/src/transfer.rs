//! Moving bytes between this process and the address space of another.
//!
//! One transfer is one request to the operating system. What the request
//! gave is judged here: only a transfer of exactly the bytes asked for
//! counts as done.

use nix::sys::uio::{process_vm_readv, process_vm_writev, IoVec, RemoteIoVec};
use nix::unistd::Pid;
use vstd::prelude::*;

use crate::errno::EPERM;
use crate::error::TransferError;

verus! {

/// What a transfer request gave: the bytes moved, or an error number.
pub type TransferOutcome = Result<usize, i32>;

/// The judgement on the outcome of a transfer of `requested` bytes at
/// `address`: done only if exactly `requested` bytes moved.
pub open spec fn judged(address: usize, requested: usize, outcome: TransferOutcome) -> Result<
    (),
    TransferError,
> {
    match outcome {
        Ok(transferred) => if transferred == requested {
            Ok(())
        } else {
            Err(TransferError::PartialTransfer { address, requested, transferred })
        },
        Err(errno) => if errno == EPERM {
            Err(TransferError::Permission { address })
        } else {
            Err(TransferError::SyscallFailure { address, errno })
        },
    }
}

/// A transfer that moved fewer bytes than were asked for is partial,
/// however many it moved, and never done.
pub proof fn lemma_short_transfer_is_partial(address: usize, requested: usize, transferred: usize)
    requires
        transferred < requested,
    ensures
        judged(address, requested, Ok(transferred)) == Err::<(), TransferError>(
            TransferError::PartialTransfer { address, requested, transferred },
        ),
{
}

/// Judges the outcome of a transfer of `requested` bytes at `address`.
pub fn judge_transfer(address: usize, requested: usize, outcome: TransferOutcome) -> (judgement:
    Result<(), TransferError>)
    ensures
        judgement == judged(address, requested, outcome),
{
    match outcome {
        Ok(transferred) => if transferred == requested {
            Ok(())
        } else {
            Err(TransferError::PartialTransfer { address, requested, transferred })
        },
        Err(errno) => if errno == EPERM {
            Err(TransferError::Permission { address })
        } else {
            Err(TransferError::SyscallFailure { address, errno })
        },
    }
}

/// The buffer of a read of `requested` bytes at `address`, if the outcome
/// of the request lets it count as read.
pub fn complete_read(
    address: usize,
    requested: usize,
    outcome: TransferOutcome,
    buffer: Vec<u8>,
) -> (read: Result<Vec<u8>, TransferError>)
    ensures
        match read {
            Ok(bytes) => outcome == Ok::<usize, i32>(requested) && bytes == buffer,
            Err(e) => judged(address, requested, outcome) == Err::<(), TransferError>(e),
        },
{
    match judge_transfer(address, requested, outcome) {
        Ok(()) => Ok(buffer),
        Err(e) => Err(e),
    }
}

/// `nix::sys::uio::process_vm_readv` with one local and one remote
/// segment: asks the operating system to copy as many bytes as `buffer`
/// holds from `address` in the process `pid` into `buffer`. The call
/// writes into the bytes of `buffer` and cannot change how many there
/// are. The error of nix is handed on as its number.
#[verifier::external_body]
fn vm_read(pid: i32, address: usize, buffer: &mut Vec<u8>) -> (outcome: TransferOutcome)
    ensures
        final(buffer)@.len() == old(buffer)@.len(),
{
    let remote = RemoteIoVec { base: address, len: buffer.len() };
    let local = IoVec::from_mut_slice(buffer.as_mut_slice());
    match process_vm_readv(Pid::from_raw(pid), &[local], &[remote]) {
        Ok(transferred) => Ok(transferred),
        Err(errno) => Err(errno as i32),
    }
}

/// `nix::sys::uio::process_vm_writev` with one local and one remote
/// segment: asks the operating system to copy the bytes of `buffer` to
/// the `len` bytes at `address` in the process `pid`. Nothing is claimed
/// of what comes back. The error of nix is handed on as its number.
#[verifier::external_body]
fn vm_write(pid: i32, address: usize, len: usize, buffer: &Vec<u8>) -> (outcome:
    TransferOutcome) {
    let remote = RemoteIoVec { base: address, len };
    let local = IoVec::from_slice(buffer.as_slice());
    match process_vm_writev(Pid::from_raw(pid), &[local], &[remote]) {
        Ok(transferred) => Ok(transferred),
        Err(errno) => Err(errno as i32),
    }
}

/// Reads `size` bytes at `address` in the process `pid`, in one request.
///
/// The read counts only if the operating system moved exactly `size`
/// bytes; a shorter transfer is an error and hands out no bytes. No
/// buffer is larger than `isize::MAX` bytes.
pub fn read_bytes(pid: i32, address: usize, size: usize) -> (read: Result<Vec<u8>, TransferError>)
    requires
        size <= isize::MAX,
    ensures
        match read {
            Ok(bytes) => bytes@.len() == size,
            Err(e) => exists|outcome: TransferOutcome|
                #[trigger] judged(address, size, outcome) == Err::<(), TransferError>(e),
        },
{
    let mut buffer: Vec<u8> = vec![0u8; size];
    let outcome = vm_read(pid, address, &mut buffer);
    complete_read(address, size, outcome, buffer)
}

/// Writes `buffer` over the `size` bytes at `address` in the process
/// `pid`, in one request. The write counts only if the operating system
/// moved exactly `size` bytes.
pub fn write_over(pid: i32, address: usize, size: usize, buffer: &Vec<u8>) -> (written: Result<
    (),
    TransferError,
>)
    ensures
        exists|outcome: TransferOutcome| #[trigger] judged(address, size, outcome) == written,
{
    let outcome = vm_write(pid, address, size, buffer);
    judge_transfer(address, size, outcome)
}

/// Writes `buffer` at `address` in the process `pid`, in one request. The
/// write counts only if the operating system moved every byte of
/// `buffer`.
pub fn write_bytes(pid: i32, address: usize, buffer: &Vec<u8>) -> (written: Result<
    (),
    TransferError,
>)
    ensures
        exists|outcome: TransferOutcome|
            #[trigger] judged(address, buffer@.len() as usize, outcome) == written,
{
    let size: usize = buffer.len();
    let written = write_over(pid, address, size, buffer);
    proof {
        let outcome = choose|outcome: TransferOutcome|
            #[trigger] judged(address, size, outcome) == written;
        assert(judged(address, buffer@.len() as usize, outcome) == written);
    }
    written
}

} // verus!
