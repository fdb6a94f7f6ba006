use ananse::decoder::types::{ImportEntry, Word};
use ananse::decoder::WASI_MODULE;
use ananse::executor::error::ExecuteError;
use ananse::executor::host::{Host, HostAction, NoHost};
use ananse::wasi::WasiSnapshotPreview1;

fn wasi(name: &str) -> ImportEntry {
    ImportEntry { module: WASI_MODULE.to_string(), name: name.to_string() }
}

fn read_u32(memory: &[u8], at: usize) -> u32 {
    u32::from_le_bytes(memory[at..at + 4].try_into().unwrap())
}

#[test]
fn fd_write_gathers_every_iovec_into_the_journal() {
    let mut memory = vec![0u8; 64];
    memory[0..4].copy_from_slice(&16u32.to_le_bytes());
    memory[4..8].copy_from_slice(&5u32.to_le_bytes());
    memory[8..12].copy_from_slice(&21u32.to_le_bytes());
    memory[12..16].copy_from_slice(&6u32.to_le_bytes());
    memory[16..21].copy_from_slice(b"hello");
    memory[21..27].copy_from_slice(b" world");

    let mut host = WasiSnapshotPreview1::new();
    let action = host
        .call(&wasi("fd_write"), &[Word::I32(1), Word::I32(0), Word::I32(2), Word::I32(32)], &mut memory)
        .expect("fd_write succeeds");

    assert_eq!(action, HostAction::Return(vec![Word::I32(0)]));
    assert_eq!(host.journal(), b"hello world");
    assert_eq!(read_u32(&memory, 32), 11);
}

#[test]
fn fd_write_rejects_an_out_of_bounds_buffer() {
    let mut memory = vec![0u8; 16];
    memory[0..4].copy_from_slice(&8u32.to_le_bytes());
    memory[4..8].copy_from_slice(&100u32.to_le_bytes());

    let err = WasiSnapshotPreview1::new()
        .call(&wasi("fd_write"), &[Word::I32(1), Word::I32(0), Word::I32(1), Word::I32(8)], &mut memory)
        .unwrap_err();

    assert!(matches!(err, ExecuteError::Host { .. }));
}

#[test]
fn fd_write_rejects_mismatched_arity() {
    let err = WasiSnapshotPreview1::new()
        .call(&wasi("fd_write"), &[Word::I32(1), Word::I32(0), Word::I32(1)], &mut [])
        .unwrap_err();

    assert!(matches!(err, ExecuteError::Host { .. }));
}

#[test]
fn proc_exit_halts_with_its_status() {
    let action = WasiSnapshotPreview1::new()
        .call(&wasi("proc_exit"), &[Word::I32(7)], &mut [])
        .expect("proc_exit succeeds");
    assert_eq!(action, HostAction::Exit(7));
}

#[test]
fn proc_exit_keeps_the_status_bit_pattern() {
    let action = WasiSnapshotPreview1::new()
        .call(&wasi("proc_exit"), &[Word::I32(u32::MAX)], &mut [])
        .expect("proc_exit succeeds");
    assert_eq!(action, HostAction::Exit(-1));
}

#[test]
fn unknown_wasi_imports_are_rejected() {
    let err = WasiSnapshotPreview1::new().call(&wasi("clock_time_get"), &[], &mut []).unwrap_err();
    match err {
        ExecuteError::Host { module, name, .. } => {
            assert_eq!(module, WASI_MODULE);
            assert_eq!(name, "clock_time_get");
        }
        other => panic!("unexpected {other:?}"),
    }
}

#[test]
fn no_host_rejects_every_import() {
    let err = NoHost.call(&wasi("fd_write"), &[], &mut []).unwrap_err();
    assert!(matches!(err, ExecuteError::Host { .. }));
}

#[test]
fn fd_write_of_an_empty_buffer_reports_zero_bytes() {
    let mut memory = vec![0u8; 32];
    memory[0..4].copy_from_slice(&16u32.to_le_bytes());
    memory[4..8].copy_from_slice(&0u32.to_le_bytes());
    let action = WasiSnapshotPreview1::new()
        .call(&wasi("fd_write"), &[Word::I32(1), Word::I32(0), Word::I32(1), Word::I32(28)], &mut memory)
        .expect("an empty buffer is written");
    assert_eq!(action, HostAction::Return(vec![Word::I32(0)]));
    assert_eq!(read_u32(&memory, 28), 0);
}

#[test]
fn arity_complaints_name_the_function_and_both_counts() {
    let err = WasiSnapshotPreview1::new()
        .call(&wasi("fd_write"), &[Word::I32(1), Word::I32(0), Word::I32(1)], &mut [])
        .unwrap_err();
    assert_eq!(
        err,
        ExecuteError::Host {
            module: WASI_MODULE.to_string(),
            name: "fd_write".to_string(),
            message: "fd_write expects 4 arguments, got 3".to_string(),
        }
    );
    let err = WasiSnapshotPreview1::new().call(&wasi("proc_exit"), &[], &mut []).unwrap_err();
    assert_eq!(
        err,
        ExecuteError::Host {
            module: WASI_MODULE.to_string(),
            name: "proc_exit".to_string(),
            message: "proc_exit expects 1 arguments, got 0".to_string(),
        }
    );
}
