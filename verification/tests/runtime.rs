use ananse::decoder::error::DecodeError;
use ananse::decoder::instruction::{BlockType, Instruction};
use ananse::decoder::module::Module;
use ananse::decoder::opcode::OpCode;
use ananse::decoder::sections::{BodyDecl, DataDecl, DataMode, ExportDecl, ImportDecl, MemoryDecl, ModuleSections, TypeDecl, ValueKind};
use ananse::decoder::types::{ExportKind, Word, WordType};
use ananse::decoder::WASI_MODULE;
use ananse::executor::entry::Entry;
use ananse::executor::error::{ExecuteError, Trap};
use ananse::executor::host::NoHost;
use ananse::executor::record::{MemAccess, StepRecord, Transition};
use ananse::executor::execute;
use ananse::lift::error::LiftError;
use ananse::lift::lift;
use ananse::lift::program::Register;
use ananse::runtime::{Error, Runtime};
use ananse::wasi::WasiSnapshotPreview1;

fn func_type(params: &[ValueKind], results: &[ValueKind]) -> TypeDecl {
    TypeDecl { is_func: true, params: params.to_vec(), results: results.to_vec() }
}

fn body(instructions: Vec<Instruction>) -> BodyDecl {
    let offsets = (0..instructions.len()).collect();
    BodyDecl { locals: Vec::new(), instructions, offsets }
}

fn empty_sections() -> ModuleSections {
    ModuleSections {
        types: Vec::new(),
        imports: Vec::new(),
        functions: Vec::new(),
        memories: Vec::new(),
        globals: Vec::new(),
        exports: Vec::new(),
        data: Vec::new(),
        bodies: Vec::new(),
    }
}

fn export(name: &str, index: u32) -> ExportDecl {
    ExportDecl { name: name.to_string(), kind: Some(ExportKind::Function), index }
}

const FIBONACCI: &str = r#"(module
  (func $fib (export "fib") (param i32) (result i32)
    local.get 0
    i32.const 2
    i32.lt_s
    if (result i32)
      i32.const 1
    else
      local.get 0
      i32.const 1
      i32.sub
      call $fib
      local.get 0
      i32.const 2
      i32.sub
      call $fib
      i32.add
    end))"#;

fn fibonacci_sections() -> ModuleSections {
    let mut s = empty_sections();
    s.types.push(func_type(&[ValueKind::I32], &[ValueKind::I32]));
    s.functions.push(0);
    s.exports.push(export("fib", 0));
    s.bodies.push(body(vec![
        Instruction::LocalGet { local_index: 0 },
        Instruction::I32Const { value: 2 },
        Instruction::I32LtS,
        Instruction::If { blockty: BlockType::Type },
        Instruction::I32Const { value: 1 },
        Instruction::Else,
        Instruction::LocalGet { local_index: 0 },
        Instruction::I32Const { value: 1 },
        Instruction::I32Sub,
        Instruction::Call { function_index: 0 },
        Instruction::LocalGet { local_index: 0 },
        Instruction::I32Const { value: 2 },
        Instruction::I32Sub,
        Instruction::Call { function_index: 0 },
        Instruction::I32Add,
        Instruction::End,
        Instruction::End,
    ]));
    s
}

const HELLO_WORLD: &str = r#"(module
  (import "wasi_snapshot_preview1" "fd_write" (func $fd_write (param i32 i32 i32 i32) (result i32)))
  (memory 1)
  (export "memory" (memory 0))
  (data (i32.const 8) "Hello, World!\n")
  (func (export "_start") (result i32)
    i32.const 0
    i32.const 8
    i32.store
    i32.const 4
    i32.const 14
    i32.store
    i32.const 1
    i32.const 0
    i32.const 1
    i32.const 32
    call $fd_write))"#;

fn hello_world_sections() -> ModuleSections {
    let i32t = ValueKind::I32;
    let mut s = empty_sections();
    s.types.push(func_type(&[i32t, i32t, i32t, i32t], &[i32t]));
    s.types.push(func_type(&[], &[i32t]));
    s.imports.push(ImportDecl { module: WASI_MODULE.to_string(), name: "fd_write".to_string(), func_type: Some(0) });
    s.functions.push(1);
    s.memories.push(MemoryDecl { initial: 1, maximum: None });
    s.exports.push(ExportDecl { name: "memory".to_string(), kind: Some(ExportKind::Memory), index: 0 });
    s.exports.push(export("_start", 1));
    s.data.push(DataDecl { mode: DataMode::Active(Some(Word::I32(8))), bytes: b"Hello, World!\n".to_vec() });
    s.bodies.push(body(vec![
        Instruction::I32Const { value: 0 },
        Instruction::I32Const { value: 8 },
        Instruction::I32Store { offset: 0 },
        Instruction::I32Const { value: 4 },
        Instruction::I32Const { value: 14 },
        Instruction::I32Store { offset: 0 },
        Instruction::I32Const { value: 1 },
        Instruction::I32Const { value: 0 },
        Instruction::I32Const { value: 1 },
        Instruction::I32Const { value: 32 },
        Instruction::Call { function_index: 0 },
        Instruction::End,
    ]));
    s
}

#[test]
fn runtime_computes_recursive_fibonacci() {
    let bytes = wat::parse_str(FIBONACCI).expect("assemble");
    let mut runtime = Runtime::instantiate_with_wasi(&bytes, fibonacci_sections()).expect("instantiate");
    let execution = runtime.call(&Entry::Export("fib".into()), &[Word::I32(10)]).expect("call fib");
    assert_eq!(execution.returns, vec![Word::I32(89)]);
}

#[test]
fn runtime_journals_hello_world_through_wasi() {
    let bytes = wat::parse_str(HELLO_WORLD).expect("assemble");
    let mut runtime = Runtime::instantiate_with_wasi(&bytes, hello_world_sections()).expect("instantiate");
    let execution = runtime.call(&Entry::Auto, &[]).expect("run _start");
    assert_eq!(runtime.host().journal(), b"Hello, World!\n");
    assert_eq!(execution.returns, vec![Word::I32(0)]);
}

#[test]
fn parameters_report_the_entry_signature() {
    let bytes = wat::parse_str(FIBONACCI).expect("assemble");
    let runtime = Runtime::instantiate(&bytes, fibonacci_sections()).expect("instantiate");
    assert_eq!(runtime.parameters(&Entry::Export("fib".into())), Ok(vec![WordType::I32]));
    assert_eq!(runtime.parameters(&Entry::Auto), Ok(vec![WordType::I32]));
}

#[test]
fn a_missing_export_is_an_undefined_entry() {
    let bytes = wat::parse_str(FIBONACCI).expect("assemble");
    let mut runtime = Runtime::instantiate(&bytes, fibonacci_sections()).expect("instantiate");
    let err = runtime.call(&Entry::Export("nope".into()), &[]).unwrap_err();
    assert_eq!(err, Error::Execute(ExecuteError::UndefinedEntry));
}

#[test]
fn a_wrong_argument_count_is_rejected() {
    let bytes = wat::parse_str(FIBONACCI).expect("assemble");
    let mut runtime = Runtime::instantiate(&bytes, fibonacci_sections()).expect("instantiate");
    let err = runtime.call(&Entry::Export("fib".into()), &[Word::I32(1), Word::I32(2)]).unwrap_err();
    assert_eq!(err, Error::Execute(ExecuteError::ArgumentCountMismatch { expected: 1, actual: 2 }));
}

#[test]
fn no_arguments_default_to_zero() {
    let bytes = wat::parse_str(FIBONACCI).expect("assemble");
    let mut runtime = Runtime::instantiate(&bytes, fibonacci_sections()).expect("instantiate");
    let execution = runtime.call(&Entry::Export("fib".into()), &[]).expect("call fib");
    assert_eq!(execution.returns, vec![Word::I32(1)]);
}

#[test]
fn a_forbidden_import_module_is_rejected() {
    let text = r#"(module (import "env" "f" (func)))"#;
    let bytes = wat::parse_str(text).expect("assemble");
    let mut s = empty_sections();
    s.types.push(func_type(&[], &[]));
    s.imports.push(ImportDecl { module: "env".to_string(), name: "f".to_string(), func_type: Some(0) });
    let err = Module::decode(&bytes, s).unwrap_err();
    assert_eq!(err, DecodeError::ForbiddenImportModule { module: "env".to_string() });
}

#[test]
fn a_forbidden_wasi_function_is_rejected() {
    let text = r#"(module (import "wasi_snapshot_preview1" "clock_time_get" (func)))"#;
    let bytes = wat::parse_str(text).expect("assemble");
    let mut s = empty_sections();
    s.types.push(func_type(&[], &[]));
    s.imports.push(ImportDecl { module: WASI_MODULE.to_string(), name: "clock_time_get".to_string(), func_type: Some(0) });
    let err = Module::decode(&bytes, s).unwrap_err();
    assert_eq!(
        err,
        DecodeError::ForbiddenWasiImport { module: WASI_MODULE.to_string(), name: "clock_time_get".to_string() }
    );
}

#[test]
fn invalid_bytes_fail_validation() {
    let err = Module::decode(&[0, 1, 2, 3], empty_sections()).unwrap_err();
    match err {
        DecodeError::ValidationFailed { offset, message } => {
            assert_eq!(offset, 0);
            assert!(message.ends_with("(at offset 0x0)"), "{message}");
        }
        other => panic!("expected a validation failure, got {other:?}"),
    }
}

#[test]
fn a_parser_error_keeps_its_offset_and_text() {
    // A module header followed by a truncated section.
    let bytes = [0x00, 0x61, 0x73, 0x6d, 0x01, 0x00, 0x00, 0x00, 0x01, 0x05, 0x01];
    let e = match wasmparser::Validator::new().validate_all(&bytes) {
        Ok(_) => panic!("a truncated section must not validate"),
        Err(e) => e,
    };
    let offset = e.offset() as usize;
    let text = e.to_string();
    assert_eq!(
        DecodeError::validation_failed(e.clone()),
        DecodeError::ValidationFailed { offset, message: text.clone() }
    );
    assert_eq!(LiftError::malformed(e), LiftError::Decode(DecodeError::InvalidBinary { offset, message: text }));
}

#[test]
fn decode_keeps_the_tracked_exports() {
    let bytes = wat::parse_str(HELLO_WORLD).expect("assemble");
    let module = Module::decode(&bytes, hello_world_sections()).expect("decode");
    assert_eq!(module.bytes(), &bytes[..]);
    assert_eq!(module.imports().len(), 1);
    assert_eq!(module.exports().len(), 2);
    assert_eq!(module.exports()[1].name, "_start");
    assert_eq!(module.exports()[1].kind, ExportKind::Function);
}

#[test]
fn lift_schedules_every_program_point() {
    let bytes = wat::parse_str(FIBONACCI).expect("assemble");
    let module = Module::decode(&bytes, fibonacci_sections()).expect("decode");
    let program = lift(&module).expect("lift");
    assert_eq!(program.functions.len(), 1);
    let f = &program.functions[0];
    assert_eq!(f.schedules.len(), 17);
    assert_eq!(f.locals_count, 1);
    assert_eq!(f.max_stack_height, 3);
    assert_eq!(f.reg_file_width, 4);
    for (pc, s) in f.schedules.iter().enumerate() {
        assert_eq!(s.pc as usize, pc);
    }
}

#[test]
fn lift_names_the_registers_of_value_operators() {
    let bytes = wat::parse_str(FIBONACCI).expect("assemble");
    let module = Module::decode(&bytes, fibonacci_sections()).expect("decode");
    let program = lift(&module).expect("lift");
    let f = &program.functions[0];
    // local.get 0 at height 0: reads local 0, pushes stack slot 0.
    assert_eq!(f.schedules[0].height_in, 0);
    assert_eq!(f.schedules[0].reads, vec![Register::Local(0)]);
    assert_eq!(f.schedules[0].writes, vec![Register::Stack(0)]);
    // i32.lt_s at height 2: pops the top two slots, top first, writes slot 0.
    assert_eq!(f.schedules[2].height_in, 2);
    assert_eq!(f.schedules[2].reads, vec![Register::Stack(1), Register::Stack(0)]);
    assert_eq!(f.schedules[2].writes, vec![Register::Stack(0)]);
    // The else arm restarts at the if's entry height: its first i32.sub runs at height 2.
    assert_eq!(f.schedules[8].height_in, 2);
    assert_eq!(f.schedules[8].reads, vec![Register::Stack(1), Register::Stack(0)]);
    assert_eq!(f.schedules[8].writes, vec![Register::Stack(0)]);
    // The second i32.sub, above the first call's result, runs at height 3.
    assert_eq!(f.schedules[12].height_in, 3);
    assert_eq!(f.schedules[12].reads, vec![Register::Stack(2), Register::Stack(1)]);
    assert_eq!(f.schedules[12].writes, vec![Register::Stack(1)]);
}

#[test]
fn records_carry_the_registers_their_schedule_names() {
    let bytes = wat::parse_str(FIBONACCI).expect("assemble");
    let module = Module::decode(&bytes, fibonacci_sections()).expect("decode");
    let program = lift(&module).expect("lift");
    let mut records: Vec<StepRecord> = Vec::new();
    execute(&module, &Entry::Export("fib".into()), &[Word::I32(3)], &mut NoHost, &mut records).expect("run");
    assert!(!records.is_empty());
    for r in &records {
        let sched = &program.functions[r.func_index as usize].schedules[r.pc as usize];
        let reads: Vec<Register> = r.reads.iter().map(|a| a.reg).collect();
        let writes: Vec<Register> = r.writes.iter().map(|a| a.reg).collect();
        assert_eq!(reads, sched.reads);
        assert_eq!(writes, sched.writes);
    }
}

#[test]
fn records_carry_the_values_their_instructions_compute() {
    let bytes = wat::parse_str(FIBONACCI).expect("assemble");
    let module = Module::decode(&bytes, fibonacci_sections()).expect("decode");
    let mut records: Vec<StepRecord> = Vec::new();
    execute(&module, &Entry::Export("fib".into()), &[Word::I32(4)], &mut NoHost, &mut records).expect("run");
    let bits = |w: Word| match w {
        Word::I32(b) => b as u64,
        Word::I64(b) => b,
    };
    let mut checked = 0;
    for r in &records {
        let reads: Vec<u64> = r.reads.iter().map(|a| bits(a.value)).collect();
        let writes: Vec<u64> = r.writes.iter().map(|a| bits(a.value)).collect();
        match r.opcode {
            OpCode::I32Add => assert_eq!(writes, vec![(reads[1] + reads[0]) % (1 << 32)]),
            OpCode::I32Sub => assert_eq!(writes, vec![reads[1].wrapping_sub(reads[0]) % (1 << 32)]),
            OpCode::I32LtS => assert_eq!(writes, vec![((reads[1] as u32 as i32) < (reads[0] as u32 as i32)) as u64]),
            OpCode::LocalGet => assert_eq!(writes, reads),
            OpCode::I32Const => assert!(writes == vec![1] || writes == vec![2]),
            _ => continue,
        }
        assert!(r.memory.is_empty());
        checked += 1;
    }
    assert!(checked > 20);
}

#[test]
fn memory_records_carry_the_bytes_they_move() {
    let text = r#"(module (memory 1) (func (export "f") (result i32)
        i32.const 8
        i32.const 0x12345678
        i32.store offset=4
        i32.const 8
        i32.load8_u offset=5))"#;
    let bytes = wat::parse_str(text).expect("assemble");
    let mut s = empty_sections();
    s.types.push(func_type(&[], &[ValueKind::I32]));
    s.functions.push(0);
    s.memories.push(MemoryDecl { initial: 1, maximum: None });
    s.exports.push(export("f", 0));
    s.bodies.push(body(vec![
        Instruction::I32Const { value: 8 },
        Instruction::I32Const { value: 0x12345678 },
        Instruction::I32Store { offset: 4 },
        Instruction::I32Const { value: 8 },
        Instruction::I32Load8U { offset: 5 },
        Instruction::End,
    ]));
    let module = Module::decode(&bytes, s).expect("decode");
    let mut records: Vec<StepRecord> = Vec::new();
    let result = execute(&module, &Entry::Auto, &[], &mut NoHost, &mut records).expect("run");
    assert_eq!(result.returns, vec![Word::I32(0x56)]);
    let store = &records[2];
    assert_eq!(store.reads.iter().map(|a| a.value).collect::<Vec<_>>(), vec![Word::I32(0x12345678), Word::I32(8)]);
    assert_eq!(store.memory, vec![MemAccess { address: 12, width: 4, value: 0x12345678, store: true }]);
    let load = &records[4];
    assert_eq!(load.memory, vec![MemAccess { address: 13, width: 1, value: 0x56, store: false }]);
    assert_eq!(load.writes.iter().map(|a| a.value).collect::<Vec<_>>(), vec![Word::I32(0x56)]);
}

#[test]
fn execution_emits_one_record_per_step() {
    let bytes = wat::parse_str(FIBONACCI).expect("assemble");
    let module = Module::decode(&bytes, fibonacci_sections()).expect("decode");
    let mut records: Vec<StepRecord> = Vec::new();
    let result = execute(&module, &Entry::Export("fib".into()), &[Word::I32(1)], &mut NoHost, &mut records).expect("run");
    assert_eq!(result.returns, vec![Word::I32(1)]);
    assert_eq!(result.steps as usize, records.len());
    assert_eq!(records.last().map(|r| r.transition), Some(Transition::Return));
}

#[test]
fn unreachable_traps() {
    let text = r#"(module (func (export "f") unreachable))"#;
    let bytes = wat::parse_str(text).expect("assemble");
    let mut s = empty_sections();
    s.types.push(func_type(&[], &[]));
    s.functions.push(0);
    s.exports.push(export("f", 0));
    s.bodies.push(body(vec![Instruction::Unreachable, Instruction::End]));
    let module = Module::decode(&bytes, s).expect("decode");
    let err = execute(&module, &Entry::Auto, &[], &mut NoHost, &mut ()).unwrap_err();
    assert_eq!(err, ExecuteError::Trap(Trap::Unreachable));
}

#[test]
fn an_out_of_bounds_load_traps() {
    let text = r#"(module (memory 1) (func (export "f") (result i32) i32.const 65535 i32.load))"#;
    let bytes = wat::parse_str(text).expect("assemble");
    let mut s = empty_sections();
    s.types.push(func_type(&[], &[ValueKind::I32]));
    s.functions.push(0);
    s.memories.push(MemoryDecl { initial: 1, maximum: None });
    s.exports.push(export("f", 0));
    s.bodies.push(body(vec![Instruction::I32Const { value: 65535 }, Instruction::I32Load { offset: 0 }, Instruction::End]));
    let module = Module::decode(&bytes, s).expect("decode");
    let err = execute(&module, &Entry::Auto, &[], &mut NoHost, &mut ()).unwrap_err();
    assert_eq!(err, ExecuteError::Trap(Trap::MemoryOutOfBounds));
}

#[test]
fn a_load_reads_back_a_store_sign_extended() {
    let text = r#"(module (memory 1) (func (export "f") (result i64)
        i32.const 16 i32.const 0xff i32.store8
        i32.const 16 i64.load8_s))"#;
    let bytes = wat::parse_str(text).expect("assemble");
    let mut s = empty_sections();
    s.types.push(func_type(&[], &[ValueKind::I64]));
    s.functions.push(0);
    s.memories.push(MemoryDecl { initial: 1, maximum: None });
    s.exports.push(export("f", 0));
    s.bodies.push(body(vec![
        Instruction::I32Const { value: 16 },
        Instruction::I32Const { value: 0xff },
        Instruction::I32Store8 { offset: 0 },
        Instruction::I32Const { value: 16 },
        Instruction::I64Load8S { offset: 0 },
        Instruction::End,
    ]));
    let module = Module::decode(&bytes, s).expect("decode");
    let result = execute(&module, &Entry::Auto, &[], &mut NoHost, &mut ()).expect("run");
    assert_eq!(result.returns, vec![Word::I64(u64::MAX)]);
}

#[test]
fn memory_grows_within_its_limit() {
    let text = r#"(module (memory 1 2) (func (export "f") (result i32)
        i32.const 1 memory.grow drop
        i32.const 1 memory.grow drop
        memory.size))"#;
    let bytes = wat::parse_str(text).expect("assemble");
    let mut s = empty_sections();
    s.types.push(func_type(&[], &[ValueKind::I32]));
    s.functions.push(0);
    s.memories.push(MemoryDecl { initial: 1, maximum: Some(2) });
    s.exports.push(export("f", 0));
    s.bodies.push(body(vec![
        Instruction::I32Const { value: 1 },
        Instruction::MemoryGrow,
        Instruction::Drop,
        Instruction::I32Const { value: 1 },
        Instruction::MemoryGrow,
        Instruction::Drop,
        Instruction::MemorySize,
        Instruction::End,
    ]));
    let module = Module::decode(&bytes, s).expect("decode");
    let result = execute(&module, &Entry::Auto, &[], &mut NoHost, &mut ()).expect("run");
    assert_eq!(result.returns, vec![Word::I32(2)]);
}

#[test]
fn a_loop_counts_down_with_br_if() {
    let text = r#"(module (func (export "f") (param i32) (result i32) (local i32)
        loop
          local.get 1 i32.const 1 i32.add local.set 1
          local.get 0 i32.const 1 i32.sub local.tee 0
          br_if 0
        end
        local.get 1))"#;
    let bytes = wat::parse_str(text).expect("assemble");
    let mut s = empty_sections();
    s.types.push(func_type(&[ValueKind::I32], &[ValueKind::I32]));
    s.functions.push(0);
    s.exports.push(export("f", 0));
    s.bodies.push(BodyDecl {
        locals: vec![(1, ValueKind::I32)],
        instructions: vec![
            Instruction::Loop { blockty: BlockType::Empty },
            Instruction::LocalGet { local_index: 1 },
            Instruction::I32Const { value: 1 },
            Instruction::I32Add,
            Instruction::LocalSet { local_index: 1 },
            Instruction::LocalGet { local_index: 0 },
            Instruction::I32Const { value: 1 },
            Instruction::I32Sub,
            Instruction::LocalTee { local_index: 0 },
            Instruction::BrIf { relative_depth: 0 },
            Instruction::End,
            Instruction::LocalGet { local_index: 1 },
            Instruction::End,
        ],
        offsets: Vec::new(),
    });
    let module = Module::decode(&bytes, s).expect("decode");
    let result = execute(&module, &Entry::Auto, &[Word::I32(5)], &mut NoHost, &mut ()).expect("run");
    assert_eq!(result.returns, vec![Word::I32(5)]);
}

#[test]
fn proc_exit_ends_the_run_with_its_status() {
    let text = r#"(module
      (import "wasi_snapshot_preview1" "proc_exit" (func $exit (param i32)))
      (func (export "_start") i32.const 3 call $exit))"#;
    let bytes = wat::parse_str(text).expect("assemble");
    let mut s = empty_sections();
    s.types.push(func_type(&[ValueKind::I32], &[]));
    s.types.push(func_type(&[], &[]));
    s.imports.push(ImportDecl { module: WASI_MODULE.to_string(), name: "proc_exit".to_string(), func_type: Some(0) });
    s.functions.push(1);
    s.exports.push(export("_start", 1));
    s.bodies.push(body(vec![Instruction::I32Const { value: 3 }, Instruction::Call { function_index: 0 }, Instruction::End]));
    let mut runtime = Runtime::instantiate_with_wasi(&bytes, s).expect("instantiate");
    let execution = runtime.call(&Entry::Auto, &[]).expect("run");
    assert_eq!(execution.exit, Some(3));
    assert!(execution.returns.is_empty());
}

#[test]
fn runtime_computes_gcd_with_a_loop() {
    let text = r#"(module (func (export "gcd") (param i32 i32) (result i32)
        (block
          (loop
            local.get 1
            i32.eqz
            br_if 1
            local.get 0
            local.get 1
            i32.rem_u
            local.get 1
            local.set 0
            local.set 1
            br 0))
        local.get 0))"#;
    let bytes = wat::parse_str(text).expect("assemble");
    let mut s = empty_sections();
    s.types.push(func_type(&[ValueKind::I32, ValueKind::I32], &[ValueKind::I32]));
    s.functions.push(0);
    s.exports.push(export("gcd", 0));
    s.bodies.push(body(vec![
        Instruction::Block { blockty: BlockType::Empty },
        Instruction::Loop { blockty: BlockType::Empty },
        Instruction::LocalGet { local_index: 1 },
        Instruction::I32Eqz,
        Instruction::BrIf { relative_depth: 1 },
        Instruction::LocalGet { local_index: 0 },
        Instruction::LocalGet { local_index: 1 },
        Instruction::I32RemU,
        Instruction::LocalGet { local_index: 1 },
        Instruction::LocalSet { local_index: 0 },
        Instruction::LocalSet { local_index: 1 },
        Instruction::Br { relative_depth: 0 },
        Instruction::End,
        Instruction::End,
        Instruction::LocalGet { local_index: 0 },
        Instruction::End,
    ]));
    let mut runtime = Runtime::instantiate(&bytes, s).expect("instantiate");
    let execution = runtime.call(&Entry::Export("gcd".into()), &[Word::I32(1071), Word::I32(462)]).expect("call gcd");
    assert_eq!(execution.returns, vec![Word::I32(21)]);
}

#[test]
fn records_name_the_operators_that_ran() {
    let bytes = wat::parse_str(FIBONACCI).expect("assemble");
    let sections = fibonacci_sections();
    let module = Module::decode(&bytes, sections.clone()).expect("decode");
    let mut records: Vec<StepRecord> = Vec::new();
    execute(&module, &Entry::Auto, &[Word::I32(3)], &mut NoHost, &mut records).expect("run");
    let body = &sections.bodies[0].instructions;
    for r in &records {
        assert_eq!(r.func_index, 0);
        let op = ananse::decoder::opcode::OpCode::from_instruction(&body[r.pc as usize]).expect("supported");
        assert_eq!(op, r.opcode);
    }
}

const CRC32: &str = r#"(module
  (memory (export "memory") 1)
  (data (i32.const 0) "123456789")
  (func (export "crc32") (param $ptr i32) (param $len i32) (result i32)
    (local $crc i32) (local $i i32) (local $k i32)
    i32.const -1
    local.set $crc
    block $done
      loop $bytes
        local.get $i
        local.get $len
        i32.ge_u
        br_if $done
        local.get $crc
        local.get $ptr
        local.get $i
        i32.add
        i32.load8_u
        i32.xor
        local.set $crc
        i32.const 8
        local.set $k
        loop $bits
          local.get $crc
          i32.const 1
          i32.shr_u
          i32.const 0xEDB88320
          i32.const 0
          local.get $crc
          i32.const 1
          i32.and
          i32.sub
          i32.and
          i32.xor
          local.set $crc
          local.get $k
          i32.const 1
          i32.sub
          local.tee $k
          br_if $bits
        end
        local.get $i
        i32.const 1
        i32.add
        local.set $i
        br $bytes
      end
    end
    local.get $crc
    i32.const -1
    i32.xor))"#;

fn crc32_sections() -> ModuleSections {
    let i32t = ValueKind::I32;
    let mut s = empty_sections();
    s.types.push(func_type(&[i32t, i32t], &[i32t]));
    s.functions.push(0);
    s.memories.push(MemoryDecl { initial: 1, maximum: None });
    s.exports.push(ExportDecl { name: "memory".to_string(), kind: Some(ExportKind::Memory), index: 0 });
    s.exports.push(export("crc32", 0));
    s.data.push(DataDecl { mode: DataMode::Active(Some(Word::I32(0))), bytes: b"123456789".to_vec() });
    let (crc, i, k) = (2, 3, 4);
    let mut b = body(vec![
        Instruction::I32Const { value: -1 },
        Instruction::LocalSet { local_index: crc },
        Instruction::Block { blockty: BlockType::Empty },
        Instruction::Loop { blockty: BlockType::Empty },
        Instruction::LocalGet { local_index: i },
        Instruction::LocalGet { local_index: 1 },
        Instruction::I32GeU,
        Instruction::BrIf { relative_depth: 1 },
        Instruction::LocalGet { local_index: crc },
        Instruction::LocalGet { local_index: 0 },
        Instruction::LocalGet { local_index: i },
        Instruction::I32Add,
        Instruction::I32Load8U { offset: 0 },
        Instruction::I32Xor,
        Instruction::LocalSet { local_index: crc },
        Instruction::I32Const { value: 8 },
        Instruction::LocalSet { local_index: k },
        Instruction::Loop { blockty: BlockType::Empty },
        Instruction::LocalGet { local_index: crc },
        Instruction::I32Const { value: 1 },
        Instruction::I32ShrU,
        Instruction::I32Const { value: 0xEDB8_8320_u32 as i32 },
        Instruction::I32Const { value: 0 },
        Instruction::LocalGet { local_index: crc },
        Instruction::I32Const { value: 1 },
        Instruction::I32And,
        Instruction::I32Sub,
        Instruction::I32And,
        Instruction::I32Xor,
        Instruction::LocalSet { local_index: crc },
        Instruction::LocalGet { local_index: k },
        Instruction::I32Const { value: 1 },
        Instruction::I32Sub,
        Instruction::LocalTee { local_index: k },
        Instruction::BrIf { relative_depth: 0 },
        Instruction::End,
        Instruction::LocalGet { local_index: i },
        Instruction::I32Const { value: 1 },
        Instruction::I32Add,
        Instruction::LocalSet { local_index: i },
        Instruction::Br { relative_depth: 0 },
        Instruction::End,
        Instruction::End,
        Instruction::LocalGet { local_index: crc },
        Instruction::I32Const { value: -1 },
        Instruction::I32Xor,
        Instruction::End,
    ]);
    b.locals = vec![(3, i32t)];
    s.bodies.push(b);
    s
}

#[test]
fn runtime_computes_the_crc32_check_value() {
    let bytes = wat::parse_str(CRC32).expect("assemble");
    let mut runtime = Runtime::instantiate_with_wasi(&bytes, crc32_sections()).expect("instantiate");
    let execution = runtime
        .call(&Entry::Export("crc32".into()), &[Word::I32(0), Word::I32(9)])
        .expect("call crc32");
    assert_eq!(execution.returns, vec![Word::I32(3_421_780_262)]);
}

#[test]
fn a_call_record_follows_its_callee_records() {
    let bytes = wat::parse_str(FIBONACCI).expect("assemble");
    let module = Module::decode(&bytes, fibonacci_sections()).expect("decode");
    let mut records: Vec<StepRecord> = Vec::new();
    let result = execute(&module, &Entry::Export("fib".into()), &[Word::I32(2)], &mut NoHost, &mut records).expect("run");
    assert_eq!(result.returns, vec![Word::I32(2)]);
    let calls: Vec<usize> = records
        .iter()
        .enumerate()
        .filter(|(_, r)| matches!(r.transition, Transition::Call { .. }))
        .map(|(i, _)| i)
        .collect();
    assert_eq!(calls.len(), 2);
    for &i in &calls {
        assert!(i > 0);
        assert_eq!(records[i - 1].transition, Transition::Return);
        assert_eq!(records[i].opcode, OpCode::Call);
    }
    assert_eq!(records[calls[0]].pc, 9);
    assert_eq!(records[calls[0]].transition, Transition::Call { callee: 0, return_pc: 10 });
    assert_eq!(records[calls[1]].pc, 13);
    assert_eq!(records[calls[1]].transition, Transition::Call { callee: 0, return_pc: 14 });
    assert_eq!(records.last().map(|r| r.transition), Some(Transition::Return));
}

#[test]
fn a_wrong_argument_count_emits_no_record() {
    let bytes = wat::parse_str(FIBONACCI).expect("assemble");
    let module = Module::decode(&bytes, fibonacci_sections()).expect("decode");
    let mut records: Vec<StepRecord> = Vec::new();
    let err = execute(&module, &Entry::Export("fib".into()), &[Word::I32(1), Word::I32(2)], &mut NoHost, &mut records)
        .unwrap_err();
    assert_eq!(err, ExecuteError::ArgumentCountMismatch { expected: 1, actual: 2 });
    assert!(records.is_empty());
}

#[test]
fn two_runs_of_one_entry_agree() {
    let bytes = wat::parse_str(FIBONACCI).expect("assemble");
    let module = Module::decode(&bytes, fibonacci_sections()).expect("decode");
    let mut first: Vec<StepRecord> = Vec::new();
    let mut second: Vec<StepRecord> = Vec::new();
    let a = execute(&module, &Entry::Export("fib".into()), &[Word::I32(6)], &mut NoHost, &mut first).expect("run");
    let b = execute(&module, &Entry::Export("fib".into()), &[Word::I32(6)], &mut NoHost, &mut second).expect("run");
    assert_eq!(a.returns, vec![Word::I32(13)]);
    assert_eq!(a.returns, b.returns);
    assert_eq!(a.steps, b.steps);
    assert_eq!(first, second);
}

#[test]
fn a_host_call_goes_on_at_the_next_point() {
    let bytes = wat::parse_str(HELLO_WORLD).expect("assemble");
    let module = Module::decode(&bytes, hello_world_sections()).expect("decode");
    let mut host = WasiSnapshotPreview1::new();
    let mut records: Vec<StepRecord> = Vec::new();
    let result = execute(&module, &Entry::Auto, &[], &mut host, &mut records).expect("run");
    assert_eq!(result.returns, vec![Word::I32(0)]);
    assert_eq!(host.journal(), b"Hello, World!\n");
    assert_eq!(records.len(), 12);
    assert_eq!(records[10].pc, 10);
    assert_eq!(records[10].opcode, OpCode::Call);
    assert_eq!(records[10].transition, Transition::Next(11));
    assert_eq!(records[11].transition, Transition::Return);
}
