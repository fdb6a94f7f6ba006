use ananse::decoder::instruction::{BlockType, Instruction};
use ananse::decoder::module::ModuleInfo;
use ananse::decoder::sections::BodyDecl;
use ananse::lift::analysis::{lift_function, lift_functions};
use ananse::lift::error::LiftError;
use ananse::lift::program::{Register, Successors};

fn body(instructions: Vec<Instruction>) -> BodyDecl {
    let offsets = (0..instructions.len()).map(|i| 10 * i).collect();
    BodyDecl { locals: Vec::new(), instructions, offsets }
}

fn info(bodies: &[BodyDecl]) -> ModuleInfo<'_> {
    ModuleInfo { type_arities: vec![(0, 1), (0, 0)], func_type_idx: vec![0, 1], num_imported_funcs: 0, num_globals: 0, bodies }
}

#[test]
fn lift_function_schedules_a_constant_return() {
    let b = body(vec![Instruction::I32Const { value: 7 }, Instruction::End]);
    let i = info(std::slice::from_ref(&b));
    let f = lift_function(&i, 0, &b).expect("lifts");
    assert_eq!(f.schedules.len(), 2);
    assert_eq!(f.max_stack_height, 1);
    assert_eq!(f.reg_file_width, 1);
    assert_eq!(f.schedules[0].writes, vec![Register::Stack(0)]);
    assert_eq!(f.schedules[1].height_in, 1);
    assert_eq!(f.schedules[1].successors, Successors::Return);
}

#[test]
fn lift_function_patches_a_forward_branch_to_the_continuation() {
    let b = body(vec![
        Instruction::Block { blockty: BlockType::Empty },
        Instruction::Br { relative_depth: 0 },
        Instruction::End,
        Instruction::I32Const { value: 1 },
        Instruction::End,
    ]);
    let i = info(std::slice::from_ref(&b));
    let f = lift_function(&i, 0, &b).expect("lifts");
    assert_eq!(f.schedules[1].successors, Successors::Jump(3));
}

#[test]
fn lift_function_refuses_an_open_frame_at_the_end_of_the_body() {
    let b = body(vec![Instruction::I32Const { value: 7 }]);
    let i = info(std::slice::from_ref(&b));
    assert!(lift_function(&i, 0, &b).is_err());
}

#[test]
fn lift_function_refuses_a_branch_past_the_control_stack() {
    let b = body(vec![Instruction::Br { relative_depth: 1 }, Instruction::End]);
    let i = info(std::slice::from_ref(&b));
    assert!(lift_function(&i, 0, &b).is_err());
}

#[test]
fn lift_function_refuses_a_reachable_pop_below_the_stack() {
    let b = body(vec![Instruction::I32Add, Instruction::End]);
    let i = info(std::slice::from_ref(&b));
    assert!(lift_function(&i, 0, &b).is_err());
}

#[test]
fn lift_function_reports_an_unsupported_operator_at_its_offset() {
    let b = body(vec![Instruction::Nop, Instruction::Other { name: "f32.add".to_string() }, Instruction::End]);
    let i = info(std::slice::from_ref(&b));
    assert_eq!(lift_function(&i, 0, &b).unwrap_err(), LiftError::UnsupportedOperator { offset: 10 });
}

#[test]
fn lift_function_refuses_a_function_without_a_type() {
    let b = body(vec![Instruction::End]);
    let i = info(std::slice::from_ref(&b));
    assert!(lift_function(&i, 2, &b).is_err());
}

#[test]
fn lift_functions_fails_when_one_body_fails() {
    let bodies = vec![
        body(vec![Instruction::I32Const { value: 1 }, Instruction::End]),
        body(vec![Instruction::Drop, Instruction::End]),
    ];
    let i = info(&bodies);
    assert!(lift_functions(&i).is_err());
    let good = vec![
        body(vec![Instruction::I32Const { value: 1 }, Instruction::End]),
        body(vec![Instruction::Nop, Instruction::End]),
    ];
    let j = info(&good);
    let fs = lift_functions(&j).expect("lifts");
    assert_eq!(fs.len(), 2);
    assert_eq!(fs[1].func_index, 1);
}

#[test]
fn lift_function_sends_a_conditional_branch_on_to_the_next_point() {
    let b = body(vec![
        Instruction::Block { blockty: BlockType::Empty },
        Instruction::I32Const { value: 1 },
        Instruction::BrIf { relative_depth: 0 },
        Instruction::Nop,
        Instruction::End,
        Instruction::I32Const { value: 2 },
        Instruction::End,
    ]);
    let i = info(std::slice::from_ref(&b));
    let f = lift_function(&i, 0, &b).expect("lifts");
    assert_eq!(f.schedules[2].successors, Successors::Branch { taken: 5, not_taken: 3 });
    assert_eq!(f.schedules[4].successors, Successors::Fallthrough);
    assert_eq!(f.schedules[6].successors, Successors::Return);
}

#[test]
fn lift_function_resolves_table_targets_to_loop_headers_and_continuations() {
    let b = body(vec![
        Instruction::Block { blockty: BlockType::Empty },
        Instruction::Loop { blockty: BlockType::Empty },
        Instruction::I32Const { value: 0 },
        Instruction::BrTable { targets: vec![0, 1], default: 1 },
        Instruction::End,
        Instruction::End,
        Instruction::I32Const { value: 3 },
        Instruction::End,
    ]);
    let i = info(std::slice::from_ref(&b));
    let f = lift_function(&i, 0, &b).expect("lifts");
    assert_eq!(f.schedules[3].successors, Successors::Table { targets: vec![2, 6], default: 6 });
}

#[test]
fn lift_function_patches_an_if_to_its_else_and_the_else_past_the_end() {
    let b = body(vec![
        Instruction::I32Const { value: 1 },
        Instruction::If { blockty: BlockType::Type },
        Instruction::I32Const { value: 2 },
        Instruction::Else,
        Instruction::I32Const { value: 3 },
        Instruction::End,
        Instruction::End,
    ]);
    let i = info(std::slice::from_ref(&b));
    let f = lift_function(&i, 0, &b).expect("lifts");
    assert_eq!(f.schedules[1].successors, Successors::Branch { taken: 2, not_taken: 4 });
    assert_eq!(f.schedules[3].successors, Successors::Jump(6));
    assert_eq!(f.schedules[6].successors, Successors::Return);
}
