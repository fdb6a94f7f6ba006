//! The program ROM: the committed table the control-flow and layout lookup binds against.

use vstd::prelude::*;
use vstd::arithmetic::div_mod::lemma_fundamental_div_mod_converse;
use crate::air::error::AirError;
use crate::decoder::opcode::{OpCode, opcode_position};
use crate::lift::program::{LiftedFunction, Register, Schedule, Successors};
use crate::trace::selector::{NUM_SELECTORS, SEL_PADDING, opcode_index};

verus! {

/// Radix of the opcode digit: the selector-column count, so every opcode index
/// (including the padding selector) is a valid digit.
pub const OPCODE_RADIX: u64 = 104;
/// Radix of the two program-counter digits.
pub const PC_RADIX: u64 = 0x4_0000;
/// Radix of the operand-stack-height and local/global-offset digits.
pub const REG_RADIX: u64 = 0x400;
/// Place value of the `next_pc` digit.
pub const NEXT_PC_PLACE: u64 = OPCODE_RADIX * PC_RADIX;
/// Place value of the `height` digit.
pub const HEIGHT_PLACE: u64 = NEXT_PC_PLACE * PC_RADIX;
/// Place value of the `imm` (local/global offset) digit.
pub const IMM_PLACE: u64 = HEIGHT_PLACE * REG_RADIX;

/// The mixed-radix number an edge `(pc, opcode, next_pc, height, imm)` packs to.
pub open spec fn packed(pc: int, opcode_id: int, next_pc: int, height: int, imm: int) -> int {
    imm * IMM_PLACE + height * HEIGHT_PLACE + next_pc * NEXT_PC_PLACE + pc * OPCODE_RADIX + opcode_id
}

/// Whether every digit of an edge lies inside its radix.
pub open spec fn digits_in_range(pc: int, opcode_id: int, next_pc: int, height: int, imm: int) -> bool {
    &&& 0 <= opcode_id < OPCODE_RADIX
    &&& 0 <= pc < PC_RADIX
    &&& 0 <= next_pc < PC_RADIX
    &&& 0 <= height < REG_RADIX
    &&& 0 <= imm < REG_RADIX
}

/// The digits of a packed value, read back by division.
pub open spec fn unpacked(v: int) -> (int, int, int, int, int) {
    let q1 = v / (OPCODE_RADIX as int);
    let q2 = q1 / (PC_RADIX as int);
    let q3 = q2 / (PC_RADIX as int);
    (q1 % (PC_RADIX as int), v % (OPCODE_RADIX as int), q2 % (PC_RADIX as int), q3 % (REG_RADIX as int), q3
        / (REG_RADIX as int))
}

/// Packing is injective on in-range digits: the digits can be read back from the
/// packed value, so distinct edges never collide; and every such value stays
/// below `2^63`, inside the Goldilocks field.
pub proof fn law_pack_is_injective(pc: int, opcode_id: int, next_pc: int, height: int, imm: int)
    requires
        digits_in_range(pc, opcode_id, next_pc, height, imm),
    ensures
        unpacked(packed(pc, opcode_id, next_pc, height, imm)) == (pc, opcode_id, next_pc, height, imm),
        0 <= packed(pc, opcode_id, next_pc, height, imm) < 0x8000_0000_0000_0000,
{
    let v = packed(pc, opcode_id, next_pc, height, imm);
    let q3 = height + 1024 * imm;
    let q2 = next_pc + 262144 * q3;
    let q1 = pc + 262144 * q2;
    assert(v == opcode_id + 104 * q1) by (nonlinear_arith)
        requires
            v == imm * (104 * 262144 * 262144 * 1024) + height * (104 * 262144 * 262144) + next_pc * (104
                * 262144) + pc * 104 + opcode_id,
            q3 == height + 1024 * imm,
            q2 == next_pc + 262144 * q3,
            q1 == pc + 262144 * q2,
    ;
    lemma_fundamental_div_mod_converse(v, 104, q1, opcode_id);
    lemma_fundamental_div_mod_converse(q1, 262144, q2, pc);
    lemma_fundamental_div_mod_converse(q2, 262144, q3, next_pc);
    lemma_fundamental_div_mod_converse(q3, 1024, imm, height);
    assert(v < 0x8000_0000_0000_0000) by (nonlinear_arith)
        requires
            v == imm * (104 * 262144 * 262144 * 1024) + height * (104 * 262144 * 262144) + next_pc * (104
                * 262144) + pc * 104 + opcode_id,
            digits_in_range(pc, opcode_id, next_pc, height, imm),
    ;
    assert(v >= 0) by (nonlinear_arith)
        requires
            v == imm * (104 * 262144 * 262144 * 1024) + height * (104 * 262144 * 262144) + next_pc * (104
                * 262144) + pc * 104 + opcode_id,
            digits_in_range(pc, opcode_id, next_pc, height, imm),
    ;
}

/// The opcode radix covers every selector column, padding included.
pub proof fn law_opcode_radix_covers_selectors()
    ensures
        OPCODE_RADIX == NUM_SELECTORS,
        SEL_PADDING < OPCODE_RADIX,
{
}

/// Packs one schedule edge into a field-element value, or `None` if the value
/// leaves `u64`.
pub fn pack(pc: u64, opcode_id: u64, next_pc: u64, height: u64, imm: u64) -> (r: Option<u64>)
    ensures
        packed(pc as int, opcode_id as int, next_pc as int, height as int, imm as int) <= u64::MAX ==> r
            == Some(packed(pc as int, opcode_id as int, next_pc as int, height as int, imm as int) as u64),
        packed(pc as int, opcode_id as int, next_pc as int, height as int, imm as int) > u64::MAX ==> r
            is None,
{
    let a = imm.checked_mul(IMM_PLACE);
    let b = height.checked_mul(HEIGHT_PLACE);
    let c = next_pc.checked_mul(NEXT_PC_PLACE);
    let d = pc.checked_mul(OPCODE_RADIX);
    proof {
        assert(0 <= imm * IMM_PLACE) by (nonlinear_arith);
        assert(0 <= height * HEIGHT_PLACE) by (nonlinear_arith);
        assert(0 <= next_pc * NEXT_PC_PLACE) by (nonlinear_arith);
        assert(0 <= pc * OPCODE_RADIX) by (nonlinear_arith);
    }
    match (a, b, c, d) {
        (Some(a), Some(b), Some(c), Some(d)) => {
            let s1 = a.checked_add(b)?;
            let s2 = s1.checked_add(c)?;
            let s3 = s2.checked_add(d)?;
            s3.checked_add(opcode_id)
        },
        _ => None,
    }
}

/// Packs a single executed edge `(pc, opcode, next_pc, height, imm)` into its ROM
/// element, or `None` if any component lies outside the injective range. The lookup
/// side packs each executed row's edge with this and checks membership against
/// [`program_rom()`]'s table.
pub fn pack_edge(pc: u32, opcode_id: usize, next_pc: u32, height: u32, imm: u32) -> (r: Option<u64>)
    ensures
        digits_in_range(pc as int, opcode_id as int, next_pc as int, height as int, imm as int) ==> r
            == Some(packed(pc as int, opcode_id as int, next_pc as int, height as int, imm as int) as u64),
        !digits_in_range(pc as int, opcode_id as int, next_pc as int, height as int, imm as int) ==> r
            is None,
{
    if opcode_id as u64 >= OPCODE_RADIX || pc as u64 >= PC_RADIX || next_pc as u64 >= PC_RADIX
        || height as u64 >= REG_RADIX || imm as u64 >= REG_RADIX {
        return None;
    }
    proof {
        law_pack_is_injective(pc as int, opcode_id as int, next_pc as int, height as int, imm as int);
    }
    pack(pc as u64, opcode_id as u64, next_pc as u64, height as u64, imm as u64)
}

/// The register-file offset of the first local or global slot among `regs`: a
/// local keeps its index, a global sits above the `locals_count` locals; zero
/// when no register is one.
pub open spec fn offset_of(regs: Seq<Register>, locals_count: u32) -> u64
    decreases regs.len(),
{
    if regs.len() == 0 {
        0
    } else {
        match regs[0] {
            Register::Local(i) => i as u64,
            Register::Global(g) => (locals_count + g) as u64,
            Register::Stack(_) => offset_of(regs.drop_first(), locals_count),
        }
    }
}

/// The register-file offset of the local or global slot the scheduled operator at
/// `pc` touches, or zero when it touches none. Mirrors the trace's resolution: a
/// local keeps its index, a global sits above the locals.
pub fn immediate_offset(function: &LiftedFunction, pc: usize) -> (r: u64)
    requires
        pc < function.schedules@.len(),
    ensures
        r == offset_of(
            function.schedules@[pc as int].reads@ + function.schedules@[pc as int].writes@,
            function.locals_count,
        ),
{
    let schedule = &function.schedules[pc];
    let ghost all = schedule.reads@ + schedule.writes@;
    let ghost lc = function.locals_count;
    assert(all.subrange(0, all.len() as int) =~= all);
    let mut i: usize = 0;
    while i < schedule.reads.len()
        invariant
            all == schedule.reads@ + schedule.writes@,
            pc < function.schedules@.len(),
            *schedule == function.schedules@[pc as int],
            lc == function.locals_count,
            i <= schedule.reads@.len(),
            offset_of(all.subrange(i as int, all.len() as int), lc) == offset_of(all, lc),
        decreases schedule.reads.len() - i,
    {
        let ghost rest = all.subrange(i as int, all.len() as int);
        assert(rest[0] == schedule.reads@[i as int]);
        match schedule.reads[i] {
            Register::Local(index) => {
                return index as u64;
            },
            Register::Global(index) => {
                return function.locals_count as u64 + index as u64;
            },
            Register::Stack(_) => {
                assert(rest.drop_first() =~= all.subrange(i + 1, all.len() as int));
            },
        }
        i = i + 1;
    }
    let mut j: usize = 0;
    while j < schedule.writes.len()
        invariant
            all == schedule.reads@ + schedule.writes@,
            pc < function.schedules@.len(),
            *schedule == function.schedules@[pc as int],
            lc == function.locals_count,
            j <= schedule.writes@.len(),
            offset_of(all.subrange(schedule.reads@.len() + j, all.len() as int), lc) == offset_of(all, lc),
        decreases schedule.writes.len() - j,
    {
        let ghost rest = all.subrange(schedule.reads@.len() + j, all.len() as int);
        assert(rest[0] == schedule.writes@[j as int]);
        match schedule.writes[j] {
            Register::Local(index) => {
                return index as u64;
            },
            Register::Global(index) => {
                return function.locals_count as u64 + index as u64;
            },
            Register::Stack(_) => {
                assert(rest.drop_first() =~= all.subrange(schedule.reads@.len() + j + 1, all.len() as int));
            },
        }
        j = j + 1;
    }
    assert(all.subrange(all.len() as int, all.len() as int).len() == 0);
    0
}

/// The in-body successor program points an operator can move control to, with
/// terminal successors collapsed to the exit sentinel `halt_pc`.
pub open spec fn targets_of(successors: Successors, pc: int, halt_pc: u64) -> Seq<u64> {
    match successors {
        Successors::Fallthrough => seq![(pc + 1) as u64],
        Successors::Jump(target) => seq![target as u64],
        Successors::Branch { taken, not_taken } => seq![taken as u64, not_taken as u64],
        Successors::Table { targets, default } => targets@.map_values(|t: u32| t as u64).push(default as u64),
        Successors::Return | Successors::Trap => seq![halt_pc],
    }
}

/// The in-body successor program points an operator can move control to. Terminal
/// successors collapse to the exit sentinel `halt_pc`.
pub fn successor_targets(successors: &Successors, pc: u64, halt_pc: u64) -> (r: Vec<u64>)
    requires
        pc < u64::MAX,
    ensures
        r@ == targets_of(*successors, pc as int, halt_pc),
{
    let mut out: Vec<u64> = Vec::new();
    match successors {
        Successors::Fallthrough => {
            out.push(pc + 1);
        },
        Successors::Jump(target) => {
            out.push(*target as u64);
        },
        Successors::Branch { taken, not_taken } => {
            out.push(*taken as u64);
            out.push(*not_taken as u64);
        },
        Successors::Table { targets, default } => {
            let mut i: usize = 0;
            while i < targets.len()
                invariant
                    i <= targets@.len(),
                    out@ == targets@.subrange(0, i as int).map_values(|t: u32| t as u64),
                decreases targets.len() - i,
            {
                out.push(targets[i] as u64);
                i = i + 1;
                assert(out@ =~= targets@.subrange(0, i as int).map_values(|t: u32| t as u64));
            }
            assert(targets@.subrange(0, i as int) =~= targets@);
            out.push(*default as u64);
        },
        Successors::Return | Successors::Trap => {
            out.push(halt_pc);
        },
    }
    assert(out@ =~= targets_of(*successors, pc as int, halt_pc));
    out
}

/// The control-flow edges the operator at `pc` contributes: one per successor
/// target, plus the halt edge of a call, which may end the program through a host
/// `proc_exit`.
pub open spec fn pc_edges(op: OpCode, sched: Schedule, pc: int, halt_pc: u64, locals_count: u32) -> Seq<int> {
    let targets = if op == OpCode::Call {
        targets_of(sched.successors, pc, halt_pc).push(halt_pc)
    } else {
        targets_of(sched.successors, pc, halt_pc)
    };
    targets.map_values(
        |t: u64|
            packed(
                pc,
                opcode_position(op) as int,
                t as int,
                sched.height_in as int,
                offset_of(sched.reads@ + sched.writes@, locals_count) as int,
            ),
    )
}

/// The packed edges of the first `n` program points, in body order.
pub open spec fn rom_edges(opcodes: Seq<OpCode>, scheds: Seq<Schedule>, n: nat, halt_pc: u64, locals_count: u32) -> Seq<int>
    decreases n,
{
    if n == 0 {
        Seq::empty()
    } else {
        rom_edges(opcodes, scheds, (n - 1) as nat, halt_pc, locals_count) + pc_edges(
            opcodes[n - 1],
            scheds[n - 1],
            n - 1,
            halt_pc,
            locals_count,
        )
    }
}

/// The padding row's self-loop at the halt point.
pub open spec fn padding_edge(halt_pc: u64) -> int {
    packed(halt_pc as int, SEL_PADDING as int, halt_pc as int, 0, 0)
}

/// Whether every edge of `edges` fits in `u64`.
pub open spec fn all_fit(edges: Seq<int>) -> bool {
    forall|i: int| 0 <= i < edges.len() ==> #[trigger] edges[i] <= u64::MAX
}

/// The values of `v` as integers.
pub open spec fn as_ints(v: Seq<u64>) -> Seq<int> {
    v.map_values(|y: u64| y as int)
}

/// Whether `v` lists the values of `edges` and `extra`, ascending, each once.
pub open spec fn rom_table(v: Seq<u64>, edges: Seq<int>, extra: int) -> bool {
    &&& forall|i: int, j: int| 0 <= i < j < v.len() ==> #[trigger] v[i] < #[trigger] v[j]
    &&& forall|x: u64| #[trigger] v.contains(x) <==> (x == extra || edges.contains(x as int))
}

/// Builds the program ROM for a lifted function: every valid schedule edge
/// `(pc, opcode, next_pc, height, imm)` packed into one field element, sorted and
/// deduplicated so the prover and verifier produce a byte-identical table.
pub fn program_rom(opcodes: &[OpCode], function: &LiftedFunction) -> (r: Result<Vec<u64>, AirError>)
    ensures
        opcodes@.len() != function.schedules@.len() ==> r == Err::<Vec<u64>, AirError>(
            AirError::ScheduleLengthMismatch { opcodes: opcodes@.len() as usize, schedule: function.schedules@.len() as usize },
        ),
        opcodes@.len() == function.schedules@.len() ==> {
            let n = opcodes@.len();
            let halt = n as u64;
            let edges = rom_edges(opcodes@, function.schedules@, n, halt, function.locals_count);
            if n >= PC_RADIX || function.reg_file_width >= REG_RADIX || !all_fit(edges) {
                r == Err::<Vec<u64>, AirError>(AirError::ProgramTooLarge { body_len: n as usize })
            } else {
                r matches Ok(v) && rom_table(v@, edges, padding_edge(halt))
            }
        },
{
    let body_len = function.schedules.len();
    if opcodes.len() != body_len {
        return Err(AirError::ScheduleLengthMismatch { opcodes: opcodes.len(), schedule: body_len });
    }
    let halt_pc = body_len as u64;
    let reg_width = function.reg_file_width as u64;
    if halt_pc >= PC_RADIX || reg_width >= REG_RADIX {
        return Err(AirError::ProgramTooLarge { body_len });
    }
    let ghost scheds = function.schedules@;
    let ghost lc = function.locals_count;
    let mut values: Vec<u64> = Vec::new();
    let mut pc: usize = 0;
    while pc < body_len
        invariant
            body_len == opcodes@.len() == scheds.len(),
            scheds == function.schedules@,
            lc == function.locals_count,
            halt_pc == body_len as u64,
            body_len < PC_RADIX,
            pc <= body_len,
            as_ints(values@) == rom_edges(opcodes@, scheds, pc as nat, halt_pc, lc),
        decreases body_len - pc,
    {
        let sched = &function.schedules[pc];
        let opcode = opcodes[pc];
        let opcode_id = opcode_index(opcode) as u64;
        let height = sched.height_in as u64;
        let imm = immediate_offset(function, pc);
        let mut targets = successor_targets(&sched.successors, pc as u64, halt_pc);
        if opcode == OpCode::Call {
            targets.push(halt_pc);
        }
        let ghost here = pc_edges(opcode, scheds[pc as int], pc as int, halt_pc, lc);
        assert(targets@.len() == here.len());
        assert forall|j: int| 0 <= j < targets@.len() implies #[trigger] here[j] == packed(pc as int, opcode_id as int, targets@[j] as int, height as int, imm as int) by {
        }
        let ghost before = values@;
        let mut k: usize = 0;
        while k < targets.len()
            invariant
                body_len == opcodes@.len() == scheds.len(),
                scheds == function.schedules@,
                lc == function.locals_count,
                halt_pc == body_len as u64,
                pc < body_len,
                opcode == opcodes@[pc as int],
                as_ints(before) == rom_edges(opcodes@, scheds, pc as nat, halt_pc, lc),
                k <= targets@.len() == here.len(),
                here == pc_edges(opcode, scheds[pc as int], pc as int, halt_pc, lc),
                forall|j: int| 0 <= j < targets@.len() ==> #[trigger] here[j] == packed(pc as int, opcode_id as int, targets@[j] as int, height as int, imm as int),
                as_ints(values@) == as_ints(before) + here.subrange(0, k as int),
            decreases targets.len() - k,
        {
            match pack(pc as u64, opcode_id, targets[k], height, imm) {
                Some(v) => {
                    assert(here[k as int] == v as int);
                    let ghost prev_vals = values@;
                    values.push(v);
                    assert(as_ints(values@) =~= as_ints(prev_vals).push(v as int));
                    assert(here.subrange(0, k + 1) =~= here.subrange(0, k as int).push(here[k as int]));
                },
                None => {
                    proof {
                        lemma_rom_edges_prefix(opcodes@, scheds, (pc + 1) as nat, body_len as nat, halt_pc, lc);
                        let all = rom_edges(opcodes@, scheds, body_len as nat, halt_pc, lc);
                        let at = before.len() + k;
                        assert(as_ints(before).len() == before.len());
                        assert(rom_edges(opcodes@, scheds, (pc + 1) as nat, halt_pc, lc) == rom_edges(opcodes@, scheds, pc as nat, halt_pc, lc) + here);
                        assert(rom_edges(opcodes@, scheds, (pc + 1) as nat, halt_pc, lc)[at] == here[k as int]);
                        assert(all[at] == here[k as int]);
                    }
                    return Err(AirError::ProgramTooLarge { body_len });
                },
            }
            k = k + 1;
            assert(as_ints(values@) =~= as_ints(before) + here.subrange(0, k as int));
        }
        assert(here.subrange(0, k as int) =~= here);
        pc = pc + 1;
    }
    let pad = pack(halt_pc, SEL_PADDING as u64, halt_pc, 0, 0);
    proof {
        law_pack_is_injective(halt_pc as int, SEL_PADDING as int, halt_pc as int, 0, 0);
    }
    let pad = match pad {
        Some(p) => p,
        None => {
            return Err(AirError::ProgramTooLarge { body_len });
        },
    };
    let ghost edges = rom_edges(opcodes@, scheds, body_len as nat, halt_pc, lc);
    assert forall|i: int| 0 <= i < edges.len() implies #[trigger] edges[i] <= u64::MAX by {
        assert(as_ints(values@)[i] == edges[i]);
    }
    let mut all = values;
    all.push(pad);
    let out = sorted_unique(&all);
    proof {
        let m = as_ints(all@);
        assert(m =~= edges.push(padding_edge(halt_pc)));
        assert forall|x: u64| #[trigger] out@.contains(x) <==> (x == padding_edge(halt_pc) || edges.contains(x as int)) by {
            if out@.contains(x) {
                assert(all@.contains(x));
                let j = choose|j: int| 0 <= j < all@.len() && all@[j] == x;
                assert(m[j] == x);
                if j < edges.len() {
                    assert(edges[j] == x);
                }
            }
            if x == padding_edge(halt_pc) {
                assert(all@[all@.len() - 1] == pad);
                assert(all@.contains(pad));
            }
            if edges.contains(x as int) {
                let j = choose|j: int| 0 <= j < edges.len() && edges[j] == x as int;
                assert(m[j] == x);
                assert(all@[j] == x);
                assert(all@.contains(x));
            }
        }
    }
    Ok(out)
}

proof fn lemma_rom_edges_prefix(opcodes: Seq<OpCode>, scheds: Seq<Schedule>, m: nat, n: nat, halt_pc: u64, lc: u32)
    requires
        m <= n,
    ensures
        rom_edges(opcodes, scheds, m, halt_pc, lc).len() <= rom_edges(opcodes, scheds, n, halt_pc, lc).len(),
        forall|i: int| 0 <= i < rom_edges(opcodes, scheds, m, halt_pc, lc).len() ==> #[trigger] rom_edges(opcodes, scheds, n, halt_pc, lc)[i]
            == rom_edges(opcodes, scheds, m, halt_pc, lc)[i],
    decreases n,
{
    if m < n {
        lemma_rom_edges_prefix(opcodes, scheds, m, (n - 1) as nat, halt_pc, lc);
    }
}

/// The values of `items`, ascending, each once.
fn sorted_unique(items: &Vec<u64>) -> (out: Vec<u64>)
    ensures
        forall|i: int, j: int| 0 <= i < j < out@.len() ==> #[trigger] out@[i] < #[trigger] out@[j],
        forall|x: u64| #[trigger] out@.contains(x) <==> items@.contains(x),
{
    let mut out: Vec<u64> = Vec::new();
    let mut i: usize = 0;
    while i < items.len()
        invariant
            i <= items@.len(),
            forall|a: int, b: int| 0 <= a < b < out@.len() ==> #[trigger] out@[a] < #[trigger] out@[b],
            forall|x: u64| #[trigger] out@.contains(x) <==> items@.subrange(0, i as int).contains(x),
        decreases items.len() - i,
    {
        let x = items[i];
        let mut k: usize = 0;
        while k < out.len() && out[k] < x
            invariant
                k <= out@.len(),
                forall|j: int| 0 <= j < k ==> #[trigger] out@[j] < x,
            decreases out.len() - k,
        {
            k = k + 1;
        }
        let ghost prev = out@;
        let ghost inserted = !(k < out@.len() && out@[k as int] == x);
        if k < out.len() && out[k] == x {
        } else {
            out.insert(k, x);
            assert(out@ =~= prev.insert(k as int, x));
            assert forall|a: int, b: int| 0 <= a < b < out@.len() implies #[trigger] out@[a] < #[trigger] out@[b] by {
                if a < k && b == k {
                } else if a < k && b > k {
                    assert(out@[b] == prev[b - 1]);
                    assert(prev[k as int] >= x);
                    if b - 1 > k {
                        assert(prev[k as int] < prev[b - 1]);
                    }
                } else if a == k {
                    assert(out@[b] == prev[b - 1]);
                    if b - 1 > k {
                        assert(prev[k as int] < prev[b - 1]);
                    }
                } else if a > k {
                    assert(prev[a - 1] < prev[b - 1]);
                } else {
                    assert(prev[a] < prev[b]);
                }
            }
        }
        proof {
            let s = items@.subrange(0, i + 1);
            assert(s =~= items@.subrange(0, i as int).push(x));
            assert forall|y: u64| #[trigger] out@.contains(y) <==> s.contains(y) by {
                if out@.contains(y) {
                    let j = choose|j: int| 0 <= j < out@.len() && out@[j] == y;
                    if y != x {
                        if !inserted {
                            assert(prev[j] == y);
                        } else if j < k {
                            assert(prev[j] == y);
                        } else {
                            assert(j != k);
                            assert(prev[j - 1] == y);
                        }
                        assert(prev.contains(y));
                        assert(items@.subrange(0, i as int).contains(y));
                        let m = choose|m: int| 0 <= m < i && items@.subrange(0, i as int)[m] == y;
                        assert(s[m] == y);
                    } else {
                        assert(s[i as int] == x);
                    }
                }
                if s.contains(y) {
                    let m = choose|m: int| 0 <= m < s.len() && s[m] == y;
                    if m == i {
                        if k < prev.len() && prev[k as int] == x {
                            assert(out@[k as int] == x);
                        } else {
                            assert(out@[k as int] == x);
                        }
                    } else {
                        assert(items@.subrange(0, i as int)[m] == y);
                        assert(prev.contains(y));
                        let j = choose|j: int| 0 <= j < prev.len() && prev[j] == y;
                        if k < prev.len() && prev[k as int] == x {
                            assert(out@[j] == y);
                        } else if j < k {
                            assert(out@[j] == y);
                        } else {
                            assert(out@[j + 1] == y);
                        }
                    }
                }
            }
        }
        i = i + 1;
    }
    assert(items@.subrange(0, items@.len() as int) =~= items@);
    out
}

/// Every fall-through operator contributes the edge to the next program
/// point: among the packed edges of the first `n` points, the point `pc < n`
/// whose successors fall through has the edge `(pc, opcode, pc + 1, height,
/// imm)`; and a table listing those edges, as [`program_rom`] returns, holds
/// it.
pub proof fn law_fallthrough_edge_reaches_next_point(
    opcodes: Seq<OpCode>,
    scheds: Seq<Schedule>,
    n: nat,
    halt_pc: u64,
    locals_count: u32,
    pc: int,
    table: Seq<u64>,
    extra: int,
)
    requires
        n <= opcodes.len(),
        n <= scheds.len(),
        0 <= pc < n,
        pc + 1 <= u64::MAX,
        scheds[pc].successors is Fallthrough,
    ensures
        rom_edges(opcodes, scheds, n, halt_pc, locals_count).contains(
            packed(
                pc,
                opcode_position(opcodes[pc]) as int,
                pc + 1,
                scheds[pc].height_in as int,
                offset_of(scheds[pc].reads@ + scheds[pc].writes@, locals_count) as int,
            ),
        ),
        rom_table(table, rom_edges(opcodes, scheds, n, halt_pc, locals_count), extra) && all_fit(
            rom_edges(opcodes, scheds, n, halt_pc, locals_count),
        ) ==> table.contains(
            packed(
                pc,
                opcode_position(opcodes[pc]) as int,
                pc + 1,
                scheds[pc].height_in as int,
                offset_of(scheds[pc].reads@ + scheds[pc].writes@, locals_count) as int,
            ) as u64,
        ),
    decreases n,
{
    let e = packed(
        pc,
        opcode_position(opcodes[pc]) as int,
        pc + 1,
        scheds[pc].height_in as int,
        offset_of(scheds[pc].reads@ + scheds[pc].writes@, locals_count) as int,
    );
    let all = rom_edges(opcodes, scheds, n, halt_pc, locals_count);
    let prev = rom_edges(opcodes, scheds, (n - 1) as nat, halt_pc, locals_count);
    let here = pc_edges(opcodes[n - 1], scheds[n - 1], n - 1, halt_pc, locals_count);
    assert(all == prev + here);
    if pc == n - 1 {
        assert(here[0] == e);
        assert(all[prev.len() as int] == e);
    } else {
        law_fallthrough_edge_reaches_next_point(opcodes, scheds, (n - 1) as nat, halt_pc, locals_count, pc, table, extra);
        let k = choose|k: int| 0 <= k < prev.len() && prev[k] == e;
        assert(all[k] == e);
    }
    assert(all.contains(e));
    if rom_table(table, all, extra) && all_fit(all) {
        let k = choose|k: int| 0 <= k < all.len() && all[k] == e;
        assert(all[k] <= u64::MAX);
        assert(all.contains((e as u64) as int));
    }
}

/// Every edge a program point contributes is among the packed edges of any
/// prefix of the body that holds the point.
proof fn lemma_point_edges_in_rom(
    opcodes: Seq<OpCode>,
    scheds: Seq<Schedule>,
    n: nat,
    halt_pc: u64,
    locals_count: u32,
    pc: int,
    k: int,
)
    requires
        n <= opcodes.len(),
        n <= scheds.len(),
        0 <= pc < n,
        0 <= k < pc_edges(opcodes[pc], scheds[pc], pc, halt_pc, locals_count).len(),
    ensures
        rom_edges(opcodes, scheds, n, halt_pc, locals_count).contains(
            pc_edges(opcodes[pc], scheds[pc], pc, halt_pc, locals_count)[k],
        ),
    decreases n,
{
    let prev = rom_edges(opcodes, scheds, (n - 1) as nat, halt_pc, locals_count);
    let here = pc_edges(opcodes[n - 1], scheds[n - 1], n - 1, halt_pc, locals_count);
    let all = rom_edges(opcodes, scheds, n, halt_pc, locals_count);
    assert(all == prev + here);
    if pc == n - 1 {
        assert(all[prev.len() + k] == here[k]);
    } else {
        lemma_point_edges_in_rom(opcodes, scheds, (n - 1) as nat, halt_pc, locals_count, pc, k);
        let j = choose|j: int| 0 <= j < prev.len() && prev[j] == pc_edges(opcodes[pc], scheds[pc], pc, halt_pc, locals_count)[k];
        assert(all[j] == prev[j]);
    }
}

/// The edges of branching and ending operators: a jump's edge goes to its
/// target, a two-way branch has an edge to each of its targets, and a return
/// or trap has an edge to the halt point, each with the operator's opcode,
/// height and immediate.
pub proof fn law_control_edges_reach_their_targets(
    opcodes: Seq<OpCode>,
    scheds: Seq<Schedule>,
    n: nat,
    halt_pc: u64,
    locals_count: u32,
    pc: int,
)
    requires
        n <= opcodes.len(),
        n <= scheds.len(),
        0 <= pc < n,
    ensures
        ({
            let edge = |t: int|
                packed(
                    pc,
                    opcode_position(opcodes[pc]) as int,
                    t,
                    scheds[pc].height_in as int,
                    offset_of(scheds[pc].reads@ + scheds[pc].writes@, locals_count) as int,
                );
            let rom = rom_edges(opcodes, scheds, n, halt_pc, locals_count);
            &&& scheds[pc].successors matches Successors::Jump(t) ==> rom.contains(edge(t as int))
            &&& scheds[pc].successors matches Successors::Branch { taken, not_taken } ==> rom.contains(edge(taken as int))
                && rom.contains(edge(not_taken as int))
            &&& (scheds[pc].successors is Return || scheds[pc].successors is Trap) ==> rom.contains(edge(halt_pc as int))
        }),
{
    let es = pc_edges(opcodes[pc], scheds[pc], pc, halt_pc, locals_count);
    match scheds[pc].successors {
        Successors::Jump(t) => {
            lemma_point_edges_in_rom(opcodes, scheds, n, halt_pc, locals_count, pc, 0);
        },
        Successors::Branch { taken, not_taken } => {
            lemma_point_edges_in_rom(opcodes, scheds, n, halt_pc, locals_count, pc, 0);
            lemma_point_edges_in_rom(opcodes, scheds, n, halt_pc, locals_count, pc, 1);
        },
        Successors::Return | Successors::Trap => {
            lemma_point_edges_in_rom(opcodes, scheds, n, halt_pc, locals_count, pc, 0);
        },
        _ => {},
    }
}

} // verus!
