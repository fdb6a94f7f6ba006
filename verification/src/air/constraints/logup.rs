//! The control-flow lookup's periodic table: the program ROM, one entry per row.

use vstd::prelude::*;
use crate::air::constraints::FIELD_ORDER;
use vstd::arithmetic::div_mod::{
    lemma_add_mod_noop, lemma_mod_bound, lemma_mod_twice, lemma_mul_mod_noop_left, lemma_small_mod, lemma_sub_mod_noop,
};
use crate::air::constraints::permutation::{inverse_spec, reciprocal, reciprocal_spec};
use crate::air::error::AirError;
use crate::air::field::{
    Ext, ext_add, ext_add_spec, ext_canonical, ext_from, ext_mul, ext_mul_spec, ext_of, ext_sub, ext_sub_spec, ext_zero,
    felt_add, felt_mul, felt_new, fp_add, fp_mul, order,
};
use crate::air::matrix::{RowMajorMatrix, at, matrix_fits, rows};
use crate::air::rom::{HEIGHT_PLACE, IMM_PLACE, NEXT_PC_PLACE, OPCODE_RADIX};
use crate::trace::layout::{COL_HEIGHT, COL_IMM, COL_PC, SELECTOR_BASE};
use crate::trace::selector::NUM_SELECTORS;

use crate::cli::text::{append, append_decimal, decimal, string_of};

verus! {

/// Row `row` of the ROM's periodic column: ROM entry `row`, then the first entry
/// repeated, or zero for an empty ROM.
pub open spec fn rom_row(rom: Seq<u64>, row: int) -> u64 {
    if row < rom.len() {
        rom[row]
    } else if rom.len() > 0 {
        rom[0]
    } else {
        0
    }
}

/// The periodic table column the control-flow recurrence reads: ROM entry `i`
/// on row `i`, then the first entry repeated. Row `i` carries the table value
/// the grand-sum step at row `i` pairs with the edge that row looks up.
pub fn periodic_table(rom: &[u64], length: usize) -> (r: Vec<u64>)
    ensures
        r@.len() == length,
        forall|row: int| 0 <= row < length ==> #[trigger] r@[row] == rom_row(rom@, row),
{
    let pad: u64 = if rom.len() > 0 {
        rom[0]
    } else {
        0
    };
    let mut column: Vec<u64> = Vec::new();
    let mut row: usize = 0;
    while row < length
        invariant
            row <= length,
            pad == rom_row(rom@, rom@.len() as int),
            column@.len() == row,
            forall|j: int| 0 <= j < row ==> #[trigger] column@[j] == rom_row(rom@, j),
        decreases length - row,
    {
        let value = if row < rom.len() {
            rom[row]
        } else {
            pad
        };
        column.push(value);
        row = row + 1;
    }
    column
}

/// The opcode index the one-hot selectors of row `r` encode, summed over the
/// first `n` selectors: `sum(selector[k] * k)`.
pub open spec fn selector_sum(m: RowMajorMatrix, r: int, n: int) -> u64
    decreases n,
{
    if n <= 0 {
        0
    } else {
        fp_add(selector_sum(m, r, n - 1), fp_mul(at(m, r, SELECTOR_BASE + n - 1), (n - 1) as u64))
    }
}

/// The packed schedule edge row `r` moves along to row `r + 1`, in the field:
/// `opcode + pc * OPCODE_RADIX + next_pc * NEXT_PC_PLACE + height * HEIGHT_PLACE
/// + imm * IMM_PLACE`, the opcode read out of the one-hot selectors.
pub open spec fn edge_spec(m: RowMajorMatrix, r: int) -> u64 {
    let opcode = selector_sum(m, r, NUM_SELECTORS as int);
    fp_add(
        fp_add(
            fp_add(
                fp_add(opcode, fp_mul(at(m, r, COL_PC as int), OPCODE_RADIX)),
                fp_mul(at(m, r + 1, COL_PC as int), NEXT_PC_PLACE),
            ),
            fp_mul(at(m, r, COL_HEIGHT as int), HEIGHT_PLACE),
        ),
        fp_mul(at(m, r, COL_IMM as int), IMM_PLACE),
    )
}

/// Whether `m` holds the columns an edge reads, in canonical form.
pub open spec fn edge_inputs(m: RowMajorMatrix) -> bool {
    matrix_fits(m, SELECTOR_BASE + NUM_SELECTORS)
}

/// The packed schedule edge row `r` moves along to row `r + 1`.
pub fn edge(m: &RowMajorMatrix, r: usize) -> (f: u64)
    requires
        edge_inputs(*m),
        r + 1 < rows(*m),
    ensures
        f == edge_spec(*m, r as int),
        f < FIELD_ORDER,
{
    let mut opcode: u64 = 0;
    let mut k: usize = 0;
    while k < NUM_SELECTORS
        invariant
            edge_inputs(*m),
            r + 1 < rows(*m),
            k <= NUM_SELECTORS,
            opcode == selector_sum(*m, r as int, k as int),
            opcode < FIELD_ORDER,
        decreases NUM_SELECTORS - k,
    {
        let term = felt_mul(m.get(r, SELECTOR_BASE + k), k as u64);
        opcode = felt_add(opcode, term);
        k = k + 1;
    }
    let height = m.height();
    let next = r + 1;
    assert(next < height);
    let a = felt_add(opcode, felt_mul(m.get(r, COL_PC), OPCODE_RADIX));
    let b = felt_add(a, felt_mul(m.get(next, COL_PC), NEXT_PC_PLACE));
    let c = felt_add(b, felt_mul(m.get(r, COL_HEIGHT), HEIGHT_PLACE));
    felt_add(c, felt_mul(m.get(r, COL_IMM), IMM_PLACE))
}

/// The position of the last ROM entry equal to `f`, if any.
pub open spec fn rom_position(rom: Seq<u64>, f: u64) -> Option<int>
    decreases rom.len(),
{
    if rom.len() == 0 {
        None
    } else if rom.last() == f {
        Some(rom.len() - 1)
    } else {
        rom_position(rom.drop_last(), f)
    }
}

/// The position of the last ROM entry equal to `f`, if any.
fn rom_index(rom: &[u64], f: u64) -> (r: Option<usize>)
    ensures
        r matches Some(p) ==> rom_position(rom@, f) == Some(p as int),
        r is None ==> rom_position(rom@, f) is None,
        r matches Some(p) ==> p < rom@.len(),
{
    let mut n: usize = rom.len();
    assert(rom@.subrange(0, n as int) =~= rom@);
    while n > 0
        invariant
            n <= rom@.len(),
            rom_position(rom@, f) == rom_position(rom@.subrange(0, n as int), f),
        decreases n,
    {
        assert(rom@.subrange(0, n as int).drop_last() =~= rom@.subrange(0, n - 1));
        if rom[n - 1] == f {
            return Some(n - 1);
        }
        n = n - 1;
    }
    None
}

/// Whether every summed row's edge is in the ROM.
pub open spec fn edges_in_rom(m: RowMajorMatrix, rom: Seq<u64>) -> bool {
    forall|r: int| 0 <= r < rows(m) - 1 ==> #[trigger] rom_position(rom, edge_spec(m, r)) is Some
}

/// The first summed row whose edge is absent from the ROM.
pub open spec fn first_missing_edge(m: RowMajorMatrix, rom: Seq<u64>) -> int {
    choose|r: int|
        0 <= r < rows(m) - 1 && #[trigger] rom_position(rom, edge_spec(m, r)) is None && forall|j: int|
            0 <= j < r ==> #[trigger] rom_position(rom, edge_spec(m, j)) is Some
}

/// How many of the first `n` rows look up ROM entry `pos`.
pub open spec fn lookups_of(m: RowMajorMatrix, rom: Seq<u64>, pos: int, n: int) -> nat
    decreases n,
{
    if n <= 0 {
        0
    } else {
        lookups_of(m, rom, pos, n - 1) + if rom_position(rom, edge_spec(m, n - 1)) == Some(pos) {
            1nat
        } else {
            0nat
        }
    }
}

/// The multiplicity column's row `i`: the number of lookups of ROM entry
/// `i - 1`, for the rows that carry the ROM after the leading spacer row.
pub open spec fn multiplicity_at(m: RowMajorMatrix, rom: Seq<u64>, i: int) -> Ext {
    if 1 <= i <= rom.len() {
        ext_of((lookups_of(m, rom, i - 1, rows(m) - 1) % (FIELD_ORDER as nat)) as u64)
    } else {
        ext_zero()
    }
}

/// The table value row `i` pairs with: ROM entry `i - 1`, then the first entry
/// repeated; zero on the spacer row.
pub open spec fn table_at(rom: Seq<u64>, i: int) -> u64 {
    if i == 0 {
        0
    } else if i - 1 < rom.len() {
        rom[i - 1]
    } else if rom.len() > 0 {
        rom[0]
    } else {
        0
    }
}

/// The edge row `i` pairs with: the one the `(i - 1)`-th row looked up; zero
/// on the spacer row.
pub open spec fn lookup_at(m: RowMajorMatrix, i: int) -> u64 {
    if i == 0 {
        0
    } else {
        edge_spec(m, i - 1)
    }
}

/// The grand sum's step into row `i`: `m_i / (alpha - t_i) - 1 / (alpha - f_i)`
/// added to `prev`; `None` when a denominator vanishes.
#[verifier::opaque]
pub open spec fn grand_step(m: RowMajorMatrix, rom: Seq<u64>, alpha: Ext, prev: Ext, i: int) -> Option<Ext> {
    match reciprocal_spec(alpha, ext_of(table_at(rom, i))) {
        None => None,
        Some(t) => match reciprocal_spec(alpha, ext_of(lookup_at(m, i))) {
            None => None,
            Some(f) => Some(ext_sub_spec(ext_add_spec(prev, ext_mul_spec(multiplicity_at(m, rom, i), t)), f)),
        },
    }
}

/// The grand sum up to row `n`: zero on row zero, then each row's step.
pub open spec fn grand_sum_at(m: RowMajorMatrix, rom: Seq<u64>, alpha: Ext, n: int) -> Option<Ext>
    decreases n,
{
    if n <= 0 {
        Some(ext_zero())
    } else {
        match grand_sum_at(m, rom, alpha, n - 1) {
            None => None,
            Some(prev) => grand_step(m, rom, alpha, prev, n),
        }
    }
}

/// The complaint that `row` looks up an edge the program ROM lacks: `"row
/// {row} looks up a control-flow edge absent from the program ROM"`.
pub open spec fn missing_edge_text(row: usize) -> Seq<char> {
    "row "@ + decimal(row as nat) + " looks up a control-flow edge absent from the program ROM"@
}

/// Renders [`missing_edge_text`].
fn missing_edge_message(row: usize) -> (r: String)
    ensures
        r@ == missing_edge_text(row),
{
    let mut out: Vec<char> = Vec::new();
    append(&mut out, "row ");
    append_decimal(&mut out, row as u64);
    append(&mut out, " looks up a control-flow edge absent from the program ROM");
    assert(out@ =~= missing_edge_text(row));
    string_of(out)
}

/// Once the grand sum is undefined at a row, it is undefined at every later row.
proof fn lemma_grand_none_persists(m: RowMajorMatrix, rom: Seq<u64>, alpha: Ext, k: int, n: int)
    requires
        0 <= k <= n,
        grand_sum_at(m, rom, alpha, k) is None,
    ensures
        grand_sum_at(m, rom, alpha, n) is None,
    decreases n - k,
{
    if n > k {
        lemma_grand_none_persists(m, rom, alpha, k, n - 1);
    }
}

/// The two control-flow LogUp columns over the main trace: per-ROM-entry
/// lookup multiplicities (ROM entry `i` on row `i + 1`, after a spacer row) and
/// the grand sum `sum(m_i / (alpha - t_i) - 1 / (alpha - f_i))` of the table
/// against the edge every row but the last looks up.
///
/// Fails when the trace has fewer summed rows than the ROM has entries, when a
/// row looks up an edge the ROM lacks (naming the first such row), and when
/// `alpha` collides with a table value or an edge.
pub fn control_flow_columns(m: &RowMajorMatrix, rom: &[u64], alpha: Ext) -> (res: Result<(Vec<Ext>, Vec<Ext>), AirError>)
    requires
        edge_inputs(*m),
        forall|i: int| 0 <= i < rom@.len() ==> #[trigger] rom@[i] < FIELD_ORDER,
        ext_canonical(alpha),
    ensures
        rom@.len() > (if rows(*m) > 0 { rows(*m) - 1 } else { 0 }) ==> res == Err::<(Vec<Ext>, Vec<Ext>), AirError>(
            AirError::TraceTooShortForRom { trace_len: rows(*m) as usize, rom_len: rom@.len() as usize },
        ),
        rom@.len() <= (if rows(*m) > 0 { rows(*m) - 1 } else { 0 }) && !edges_in_rom(*m, rom@) ==> (res matches Err(
            AirError::LookupBuild(msg),
        ) && msg@ == missing_edge_text(first_missing_edge(*m, rom@) as usize)),
        rom@.len() <= (if rows(*m) > 0 { rows(*m) - 1 } else { 0 }) && edges_in_rom(*m, rom@) && grand_sum_at(
            *m,
            rom@,
            alpha,
            rows(*m) - 1,
        ) is None ==> res == Err::<(Vec<Ext>, Vec<Ext>), AirError>(AirError::DegenerateChallenge),
        rom@.len() <= (if rows(*m) > 0 { rows(*m) - 1 } else { 0 }) && edges_in_rom(*m, rom@) && grand_sum_at(
            *m,
            rom@,
            alpha,
            rows(*m) - 1,
        ) is Some ==> (res matches Ok((mult, grand)) && mult@.len() == rows(*m) && grand@.len() == rows(*m) && (forall|
            i: int,
        | 0 <= i < rows(*m) ==> #[trigger] mult@[i] == multiplicity_at(*m, rom@, i)) && (forall|i: int|
            0 <= i < rows(*m) ==> Some(#[trigger] grand@[i]) == grand_sum_at(*m, rom@, alpha, i))),
{
    let height = m.height();
    let table_size = rom.len();
    let summed: usize = if height > 0 {
        height - 1
    } else {
        0
    };
    if table_size > summed {
        return Err(AirError::TraceTooShortForRom { trace_len: height, rom_len: table_size });
    }
    let (counts, edges) = count_lookups(m, rom, summed)?;
    let multiplicity = multiplicity_column(m, rom, &counts, height, summed);
    if height == 0 {
        return Ok((multiplicity, Vec::new()));
    }
    let grand = grand_sum_column(m, rom, alpha, &edges, &multiplicity)?;
    Ok((multiplicity, grand))
}

/// Looks up every summed row's edge in the ROM: the per-entry lookup counts and
/// the edges themselves, or the error naming the first row whose edge the ROM
/// lacks.
fn count_lookups(m: &RowMajorMatrix, rom: &[u64], summed: usize) -> (res: Result<(Vec<u64>, Vec<u64>), AirError>)
    requires
        edge_inputs(*m),
        summed == (if rows(*m) > 0 { rows(*m) - 1 } else { 0 }),
    ensures
        !edges_in_rom(*m, rom@) ==> (res matches Err(AirError::LookupBuild(msg)) && msg@ == missing_edge_text(
            first_missing_edge(*m, rom@) as usize,
        )),
        edges_in_rom(*m, rom@) ==> (res matches Ok((counts, edges)) && counts@.len() == rom@.len() && (forall|q: int|
            0 <= q < rom@.len() ==> #[trigger] counts@[q] == lookups_of(*m, rom@, q, summed as int)) && edges@.len()
            == summed && forall|j: int| 0 <= j < summed ==> #[trigger] edges@[j] == edge_spec(*m, j) && edges@[j] < FIELD_ORDER),
{
    let table_size = rom.len();
    let mut counts: Vec<u64> = Vec::new();
    let mut p: usize = 0;
    while p < table_size
        invariant
            p <= table_size,
            table_size == rom@.len(),
            counts@.len() == p,
            forall|q: int| 0 <= q < p ==> #[trigger] counts@[q] == 0,
        decreases table_size - p,
    {
        counts.push(0);
        p = p + 1;
    }
    let mut edges: Vec<u64> = Vec::new();
    let mut r: usize = 0;
    while r < summed
        invariant
            edge_inputs(*m),
            summed == (if rows(*m) > 0 { rows(*m) - 1 } else { 0 }),
            table_size == rom@.len(),
            r <= summed,
            counts@.len() == table_size,
            forall|q: int| 0 <= q < table_size ==> #[trigger] counts@[q] == lookups_of(*m, rom@, q, r as int),
            edges@.len() == r,
            forall|j: int| 0 <= j < r ==> #[trigger] edges@[j] == edge_spec(*m, j) && edges@[j] < FIELD_ORDER,
            forall|j: int| 0 <= j < r ==> #[trigger] rom_position(rom@, edge_spec(*m, j)) is Some,
        decreases summed - r,
    {
        let f = edge(m, r);
        let position = match rom_index(rom, f) {
            Some(q) => q,
            None => {
                proof {
                    let c = first_missing_edge(*m, rom@);
                    assert(rom_position(rom@, edge_spec(*m, r as int)) is None);
                    if c < r {
                        assert(rom_position(rom@, edge_spec(*m, c)) is Some);
                    } else if c > r {
                        assert(rom_position(rom@, edge_spec(*m, r as int)) is Some);
                    }
                }
                return Err(AirError::LookupBuild(missing_edge_message(r)));
            },
        };
        let ghost old_counts = counts@;
        assert(counts@[position as int] == lookups_of(*m, rom@, position as int, r as int));
        assert(lookups_of(*m, rom@, position as int, r as int) <= r) by {
            lemma_lookups_bound(*m, rom@, position as int, r as int);
        }
        let bumped = counts[position] + 1;
        counts.set(position, bumped);
        edges.push(f);
        r = r + 1;
        assert forall|q: int| 0 <= q < table_size implies #[trigger] counts@[q] == lookups_of(*m, rom@, q, r as int) by {
            assert(counts@[q] as int == if q == position { old_counts[q] + 1 } else { old_counts[q] as int });
        }
    }
    assert(edges_in_rom(*m, rom@));
    Ok((counts, edges))
}

/// The multiplicity column: ROM entry `i - 1`'s lookup count on row `i`,
/// zero on the spacer row and past the ROM.
fn multiplicity_column(m: &RowMajorMatrix, rom: &[u64], counts: &Vec<u64>, height: usize, summed: usize) -> (r: Vec<Ext>)
    requires
        height == rows(*m),
        summed == (if height > 0 { height - 1 } else { 0 }),
        counts@.len() == rom@.len(),
        forall|q: int| 0 <= q < rom@.len() ==> #[trigger] counts@[q] == lookups_of(*m, rom@, q, summed as int),
    ensures
        r@.len() == height,
        forall|j: int| 0 <= j < height ==> #[trigger] r@[j] == multiplicity_at(*m, rom@, j),
        forall|j: int| 0 <= j < height ==> ext_canonical(#[trigger] r@[j]),
{
    let table_size = rom.len();
    let mut multiplicity: Vec<Ext> = Vec::new();
    let mut i: usize = 0;
    while i < height
        invariant
            height == rows(*m),
            summed == (if height > 0 { height - 1 } else { 0 }),
            table_size == rom@.len(),
            i <= height,
            counts@.len() == table_size,
            forall|q: int| 0 <= q < table_size ==> #[trigger] counts@[q] == lookups_of(*m, rom@, q, summed as int),
            multiplicity@.len() == i,
            forall|j: int| 0 <= j < i ==> #[trigger] multiplicity@[j] == multiplicity_at(*m, rom@, j),
            forall|j: int| 0 <= j < i ==> ext_canonical(#[trigger] multiplicity@[j]),
        decreases height - i,
    {
        if i >= 1 && i - 1 < table_size {
            multiplicity.push(ext_from(felt_new(counts[i - 1])));
        } else {
            multiplicity.push(Ext { c0: 0, c1: 0 });
        }
        i = i + 1;
    }
    multiplicity
}

/// The grand-sum column: zero on the spacer row, then each row's step, or
/// [`AirError::DegenerateChallenge`] when a denominator vanishes.
fn grand_sum_column(m: &RowMajorMatrix, rom: &[u64], alpha: Ext, edges: &Vec<u64>, multiplicity: &Vec<Ext>) -> (res: Result<Vec<Ext>, AirError>)
    requires
        rows(*m) > 0,
        forall|q: int| 0 <= q < rom@.len() ==> #[trigger] rom@[q] < FIELD_ORDER,
        ext_canonical(alpha),
        edges@.len() == rows(*m) - 1,
        forall|j: int| 0 <= j < rows(*m) - 1 ==> #[trigger] edges@[j] == edge_spec(*m, j) && edges@[j] < FIELD_ORDER,
        multiplicity@.len() == rows(*m),
        forall|j: int| 0 <= j < rows(*m) ==> #[trigger] multiplicity@[j] == multiplicity_at(*m, rom@, j),
        forall|j: int| 0 <= j < rows(*m) ==> ext_canonical(#[trigger] multiplicity@[j]),
    ensures
        grand_sum_at(*m, rom@, alpha, rows(*m) - 1) is None ==> res == Err::<Vec<Ext>, AirError>(AirError::DegenerateChallenge),
        grand_sum_at(*m, rom@, alpha, rows(*m) - 1) is Some ==> (res matches Ok(grand) && grand@.len() == rows(*m) && forall|i: int|
            0 <= i < rows(*m) ==> Some(#[trigger] grand@[i]) == grand_sum_at(*m, rom@, alpha, i)),
{
    let height = multiplicity.len();
    let table_size = rom.len();
    let pad: u64 = if table_size > 0 {
        rom[0]
    } else {
        0
    };
    let mut grand: Vec<Ext> = Vec::new();
    grand.push(Ext { c0: 0, c1: 0 });
    let mut i: usize = 1;
    while i < height
        invariant
            forall|q: int| 0 <= q < rom@.len() ==> #[trigger] rom@[q] < FIELD_ORDER,
            ext_canonical(alpha),
            height == rows(*m),
            table_size == rom@.len(),
            pad == (if table_size > 0 { rom@[0] } else { 0 }),
            1 <= i <= height,
            edges@.len() == height - 1,
            forall|j: int| 0 <= j < height - 1 ==> #[trigger] edges@[j] == edge_spec(*m, j) && edges@[j] < FIELD_ORDER,
            multiplicity@.len() == height,
            forall|j: int| 0 <= j < height ==> #[trigger] multiplicity@[j] == multiplicity_at(*m, rom@, j),
            forall|j: int| 0 <= j < height ==> ext_canonical(#[trigger] multiplicity@[j]),
            grand@.len() == i,
            forall|j: int| 0 <= j < i ==> Some(#[trigger] grand@[j]) == grand_sum_at(*m, rom@, alpha, j),
            forall|j: int| 0 <= j < i ==> ext_canonical(#[trigger] grand@[j]),
        decreases height - i,
    {
        proof {
            reveal(grand_step);
        }
        let t: u64 = if i - 1 < table_size {
            rom[i - 1]
        } else {
            pad
        };
        assert(t == table_at(rom@, i as int));
        let t_inv = match reciprocal(alpha, ext_from(t)) {
            Ok(x) => x,
            Err(e) => {
                proof {
                    assert(grand_sum_at(*m, rom@, alpha, i as int) is None);
                    lemma_grand_none_persists(*m, rom@, alpha, i as int, height - 1);
                }
                return Err(e);
            },
        };
        let f = edges[i - 1];
        let f_inv = match reciprocal(alpha, ext_from(f)) {
            Ok(x) => x,
            Err(e) => {
                proof {
                    assert(grand_sum_at(*m, rom@, alpha, i as int) is None);
                    lemma_grand_none_persists(*m, rom@, alpha, i as int, height - 1);
                }
                return Err(e);
            },
        };
        let next = ext_sub(ext_add(grand[i - 1], ext_mul(multiplicity[i], t_inv)), f_inv);
        grand.push(next);
        i = i + 1;
    }
    assert(Some(grand@[height - 1]) == grand_sum_at(*m, rom@, alpha, height - 1));
    Ok(grand)
}

/// No entry is looked up more often than there are rows.
proof fn lemma_lookups_bound(m: RowMajorMatrix, rom: Seq<u64>, pos: int, n: int)
    requires
        n >= 0,
    ensures
        lookups_of(m, rom, pos, n) <= n,
    decreases n,
{
    if n > 0 {
        lemma_lookups_bound(m, rom, pos, n - 1);
    }
}

/// A coordinate of an extension element as an integer: `c0` for `c == 0`,
/// else `c1`.
pub open spec fn coord(e: Ext, c: int) -> int {
    if c == 0 {
        e.c0 as int
    } else {
        e.c1 as int
    }
}

/// The table-side term of row `i`: `1 / (alpha - t_i)`.
#[verifier::opaque]
pub open spec fn table_term(rom: Seq<u64>, alpha: Ext, i: int) -> Ext {
    inverse_spec(ext_sub_spec(alpha, ext_of(table_at(rom, i))))
}

/// The lookup-side term of row `i`: `1 / (alpha - f_i)`.
#[verifier::opaque]
pub open spec fn lookup_term(m: RowMajorMatrix, alpha: Ext, i: int) -> Ext {
    inverse_spec(ext_sub_spec(alpha, ext_of(lookup_at(m, i))))
}

/// The lookup count the multiplicity column carries on row `i`.
#[verifier::opaque]
pub open spec fn multiplicity_count(m: RowMajorMatrix, rom: Seq<u64>, i: int) -> int {
    if 1 <= i <= rom.len() {
        lookups_of(m, rom, i - 1, rows(m) - 1) as int
    } else {
        0
    }
}

/// The integer sum, over rows `1..=j`, of coordinate `c` of `m_i / (alpha - t_i)`.
pub open spec fn table_side(m: RowMajorMatrix, rom: Seq<u64>, alpha: Ext, c: int, j: int) -> int
    decreases j,
{
    if j <= 0 {
        0
    } else {
        table_side(m, rom, alpha, c, j - 1) + multiplicity_count(m, rom, j) * coord(table_term(rom, alpha, j), c)
    }
}

/// The integer sum, over rows `1..=j`, of coordinate `c` of `1 / (alpha - f_i)`.
pub open spec fn lookup_side(m: RowMajorMatrix, alpha: Ext, c: int, j: int) -> int
    decreases j,
{
    if j <= 0 {
        0
    } else {
        lookup_side(m, alpha, c, j - 1) + coord(lookup_term(m, alpha, j), c)
    }
}

/// The sum, over ROM entries `p < q`, of coordinate `c` of `1 / (alpha - rom[p])`
/// weighted by how many of the first `j` rows look entry `p` up.
pub open spec fn weighted(m: RowMajorMatrix, rom: Seq<u64>, alpha: Ext, c: int, j: int, q: int) -> int
    decreases q,
{
    if q <= 0 {
        0
    } else {
        weighted(m, rom, alpha, c, j, q - 1) + lookups_of(m, rom, q - 1, j) * coord(table_term(rom, alpha, q), c)
    }
}

/// `(x mod P - y) mod P == (x - y) mod P`.
proof fn lemma_sub_mod_left(x: int, y: int)
    ensures
        (x % order() - y) % order() == (x - y) % order(),
{
    let p = order();
    lemma_sub_mod_noop(x, y, p);
    lemma_sub_mod_noop(x % p, y, p);
    lemma_mod_twice(x, p);
}

/// A found ROM position holds the value looked up.
proof fn lemma_rom_position_holds(rom: Seq<u64>, f: u64)
    requires
        rom_position(rom, f) is Some,
    ensures
        0 <= rom_position(rom, f)->0 < rom.len(),
        rom[rom_position(rom, f)->0] == f,
    decreases rom.len(),
{
    if rom.last() != f {
        lemma_rom_position_holds(rom.drop_last(), f);
    }
}

/// The modular arithmetic of one grand-sum step.
proof fn lemma_step_mod(x: int, mc: int, t: int, f: int)
    ensures
        ((x % order() + ((mc % order()) * t) % order()) % order() - f) % order() == (x + mc * t - f) % order(),
{
    let p = order();
    lemma_mul_mod_noop_left(mc, t, p);
    lemma_add_mod_noop(x, mc * t, p);
    lemma_mod_twice(x, p);
    lemma_mod_twice(mc * t, p);
    assert((x % p + ((mc % p) * t) % p) % p == (x + mc * t) % p);
    lemma_sub_mod_left(x + mc * t, f);
}

/// A coordinate of `a + k * t - f`, where `k` embeds from the base field.
proof fn lemma_step_coord(a: Ext, k: u64, t: Ext, f: Ext, c: int)
    requires
        c == 0 || c == 1,
    ensures
        coord(ext_sub_spec(ext_add_spec(a, ext_mul_spec(ext_of(k), t)), f), c) == ((coord(a, c) + ((k * coord(t, c))
            % order())) % order() - coord(f, c)) % order(),
{
}

/// The shape of a defined grand-sum step.
proof fn lemma_grand_step_shape(m: RowMajorMatrix, rom: Seq<u64>, alpha: Ext, prev: Ext, j: int)
    requires
        grand_step(m, rom, alpha, prev, j) is Some,
    ensures
        grand_step(m, rom, alpha, prev, j) == Some(
            ext_sub_spec(
                ext_add_spec(prev, ext_mul_spec(multiplicity_at(m, rom, j), table_term(rom, alpha, j))),
                lookup_term(m, alpha, j),
            ),
        ),
{
    reveal(grand_step);
    reveal(table_term);
    reveal(lookup_term);
}

/// The multiplicity column carries the lookup count reduced into the field.
proof fn lemma_multiplicity_count(m: RowMajorMatrix, rom: Seq<u64>, j: int)
    ensures
        multiplicity_count(m, rom, j) >= 0,
        multiplicity_at(m, rom, j) == ext_of((multiplicity_count(m, rom, j) % order()) as u64),
{
    reveal(multiplicity_count);
    if 1 <= j <= rom.len() {
        let l = lookups_of(m, rom, j - 1, rows(m) - 1);
        assert(l as int % order() == l % (FIELD_ORDER as nat));
    } else {
        assert(0int % order() == 0);
    }
}

/// A coordinate of a defined grand-sum step.
proof fn lemma_grand_step_coord(m: RowMajorMatrix, rom: Seq<u64>, alpha: Ext, prev: Ext, j: int, c: int)
    requires
        c == 0 || c == 1,
        grand_step(m, rom, alpha, prev, j) is Some,
    ensures
        coord(grand_step(m, rom, alpha, prev, j)->0, c) == ((coord(prev, c) + ((multiplicity_count(m, rom, j) % order())
            * coord(table_term(rom, alpha, j), c)) % order()) % order() - coord(lookup_term(m, alpha, j), c))
            % order(),
{
    lemma_grand_step_shape(m, rom, alpha, prev, j);
    lemma_multiplicity_count(m, rom, j);
    let mc = multiplicity_count(m, rom, j);
    lemma_mod_bound(mc, order());
    let k = (mc % order()) as u64;
    assert(k as int == mc % order());
    lemma_step_coord(prev, k, table_term(rom, alpha, j), lookup_term(m, alpha, j), c);
}

/// Each defined grand-sum row is, coordinate by coordinate, the table side
/// minus the lookup side so far, reduced modulo the field order.
proof fn lemma_grand_sum_tracks_sides(m: RowMajorMatrix, rom: Seq<u64>, alpha: Ext, j: int, c: int)
    requires
        0 <= j,
        c == 0 || c == 1,
        grand_sum_at(m, rom, alpha, j) is Some,
    ensures
        coord(grand_sum_at(m, rom, alpha, j)->0, c) == (table_side(m, rom, alpha, c, j) - lookup_side(m, alpha, c, j))
            % order(),
    decreases j,
{
    if j > 0 {
        lemma_grand_sum_tracks_sides(m, rom, alpha, j - 1, c);
        let prev = grand_sum_at(m, rom, alpha, j - 1)->0;
        assert(grand_sum_at(m, rom, alpha, j) == grand_step(m, rom, alpha, prev, j));
        lemma_grand_step_coord(m, rom, alpha, prev, j, c);
        let x = table_side(m, rom, alpha, c, j - 1) - lookup_side(m, alpha, c, j - 1);
        let mc = multiplicity_count(m, rom, j);
        let tc = coord(table_term(rom, alpha, j), c);
        let fc = coord(lookup_term(m, alpha, j), c);
        lemma_step_mod(x, mc, tc, fc);
        assert(table_side(m, rom, alpha, c, j) - lookup_side(m, alpha, c, j) == x + mc * tc - fc);
    } else {
        lemma_small_mod(0, order() as nat);
    }
}

/// Adding row `j`'s lookup to the count moves the weighted sum by that
/// entry's term.
proof fn lemma_weighted_step(m: RowMajorMatrix, rom: Seq<u64>, alpha: Ext, c: int, j: int, q: int)
    requires
        0 <= j,
        0 <= q,
        rom_position(rom, edge_spec(m, j)) is Some,
    ensures
        weighted(m, rom, alpha, c, j + 1, q) == weighted(m, rom, alpha, c, j, q) + if rom_position(
            rom,
            edge_spec(m, j),
        )->0 < q {
            coord(table_term(rom, alpha, rom_position(rom, edge_spec(m, j))->0 + 1), c)
        } else {
            0
        },
    decreases q,
{
    lemma_rom_position_holds(rom, edge_spec(m, j));
    if q > 0 {
        lemma_weighted_step(m, rom, alpha, c, j, q - 1);
        let a = lookups_of(m, rom, q - 1, j) as int;
        let g = coord(table_term(rom, alpha, q), c);
        let pos = rom_position(rom, edge_spec(m, j))->0;
        assert(lookups_of(m, rom, q - 1, j + 1) == lookups_of(m, rom, q - 1, j) + if rom_position(rom, edge_spec(m, j))
            == Some(q - 1) {
            1nat
        } else {
            0nat
        });
        assert((a + 1) * g == a * g + g) by (nonlinear_arith);
        if pos == q - 1 {
            assert(lookups_of(m, rom, q - 1, j + 1) == a + 1);
        } else {
            assert(lookups_of(m, rom, q - 1, j + 1) == a);
        }
    }
}

/// No row looks up anything before the first row.
proof fn lemma_weighted_empty(m: RowMajorMatrix, rom: Seq<u64>, alpha: Ext, c: int, q: int)
    ensures
        weighted(m, rom, alpha, c, 0, q) == 0,
    decreases q,
{
    if q > 0 {
        lemma_weighted_empty(m, rom, alpha, c, q - 1);
        assert(lookups_of(m, rom, q - 1, 0) == 0);
        assert(lookups_of(m, rom, q - 1, 0) * coord(table_term(rom, alpha, q), c) == 0);
    }
}

/// The lookup side of the first `j` rows is the weighted sum of their lookups.
proof fn lemma_lookup_side_weighted(m: RowMajorMatrix, rom: Seq<u64>, alpha: Ext, c: int, j: int)
    requires
        0 <= j <= rows(m) - 1,
        edges_in_rom(m, rom),
    ensures
        lookup_side(m, alpha, c, j) == weighted(m, rom, alpha, c, j, rom.len() as int),
    decreases j,
{
    if j == 0 {
        lemma_weighted_empty(m, rom, alpha, c, rom.len() as int);
    } else {
        lemma_lookup_side_weighted(m, rom, alpha, c, j - 1);
        assert(rom_position(rom, edge_spec(m, j - 1)) is Some);
        lemma_weighted_step(m, rom, alpha, c, j - 1, rom.len() as int);
        lemma_rom_position_holds(rom, edge_spec(m, j - 1));
        let pos = rom_position(rom, edge_spec(m, j - 1))->0;
        assert(table_at(rom, pos + 1) == edge_spec(m, j - 1));
        assert(lookup_term(m, alpha, j) == table_term(rom, alpha, pos + 1)) by {
            reveal(table_term);
            reveal(lookup_term);
        }
    }
}

/// The table side up to row `j` is the weighted sum over the ROM entries it
/// has passed.
proof fn lemma_table_side_weighted(m: RowMajorMatrix, rom: Seq<u64>, alpha: Ext, c: int, j: int)
    requires
        0 <= j,
    ensures
        table_side(m, rom, alpha, c, j) == weighted(
            m,
            rom,
            alpha,
            c,
            rows(m) - 1,
            if j <= rom.len() { j } else { rom.len() as int },
        ),
    decreases j,
{
    if j > 0 {
        lemma_table_side_weighted(m, rom, alpha, c, j - 1);
        reveal(multiplicity_count);
    }
}

/// One coordinate of the closing grand sum is zero.
#[verifier::spinoff_prover]
proof fn lemma_coordinate_closes(m: RowMajorMatrix, rom: Seq<u64>, alpha: Ext, c: int)
    requires
        c == 0 || c == 1,
        rows(m) > 0,
        rom.len() <= rows(m) - 1,
        edges_in_rom(m, rom),
        grand_sum_at(m, rom, alpha, rows(m) - 1) is Some,
    ensures
        coord(grand_sum_at(m, rom, alpha, rows(m) - 1)->0, c) == 0,
{
    let n = rows(m) - 1;
    let w = weighted(m, rom, alpha, c, n, rom.len() as int);
    assert(table_side(m, rom, alpha, c, n) == w) by {
        lemma_table_side_weighted(m, rom, alpha, c, n);
    }
    assert(lookup_side(m, alpha, c, n) == w) by {
        lemma_lookup_side_weighted(m, rom, alpha, c, n);
    }
    lemma_grand_sum_tracks_sides(m, rom, alpha, n, c);
    assert((w - w) % order() == 0);
}

/// When every row but the last looks up an edge the ROM holds, and no
/// challenge collides, the control-flow grand sum closes at zero: the table
/// side, each entry weighted by its lookup count, cancels the lookup side.
pub proof fn law_honest_lookups_close_the_grand_sum(m: RowMajorMatrix, rom: Seq<u64>, alpha: Ext)
    requires
        rows(m) > 0,
        rom.len() <= rows(m) - 1,
        edges_in_rom(m, rom),
        grand_sum_at(m, rom, alpha, rows(m) - 1) is Some,
    ensures
        grand_sum_at(m, rom, alpha, rows(m) - 1) == Some(ext_zero()),
{
    let n = rows(m) - 1;
    let g = grand_sum_at(m, rom, alpha, n)->0;
    lemma_coordinate_closes(m, rom, alpha, 0);
    lemma_coordinate_closes(m, rom, alpha, 1);
    assert(coord(g, 0) == 0 && coord(g, 1) == 0);
}

/// The control-flow lookup's transition residual at row `r` of `m`: with
/// `f` the packed edge row `r` moves along, `t` the ROM entry the periodic
/// column holds, `alpha` the challenge and `s`, `s_next` the grand sum on rows
/// `r` and `r + 1`, `(s_next - s) (alpha - f) (alpha - t) - (m_next (alpha - f)
/// - (alpha - t))`, where `m_next` is the multiplicity on row `r + 1`. The
/// grand sum itself is the residual of the first and last rows.
pub open spec fn logup_transition(f: u64, s: Ext, s_next: Ext, m_next: Ext, alpha: Ext, t: u64) -> Ext {
    let alpha_minus_f = ext_sub_spec(alpha, ext_of(f));
    let alpha_minus_t = ext_sub_spec(alpha, ext_of(t));
    let delta = ext_sub_spec(s_next, s);
    ext_sub_spec(
        ext_mul_spec(ext_mul_spec(delta, alpha_minus_f), alpha_minus_t),
        ext_sub_spec(ext_mul_spec(m_next, alpha_minus_f), alpha_minus_t),
    )
}

/// Evaluates the control-flow lookup's transition residual at row `r` of `m`.
pub fn evaluate(m: &RowMajorMatrix, r: usize, s: Ext, s_next: Ext, m_next: Ext, alpha: Ext, t: u64) -> (res: Ext)
    requires
        edge_inputs(*m),
        r + 1 < rows(*m),
        ext_canonical(s),
        ext_canonical(s_next),
        ext_canonical(m_next),
        ext_canonical(alpha),
        t < FIELD_ORDER,
    ensures
        res == logup_transition(edge_spec(*m, r as int), s, s_next, m_next, alpha, t),
{
    let f = edge(m, r);
    let alpha_minus_f = ext_sub(alpha, ext_from(f));
    let alpha_minus_t = ext_sub(alpha, ext_from(t));
    let delta = ext_sub(s_next, s);
    let lhs = ext_mul(ext_mul(delta, alpha_minus_f), alpha_minus_t);
    let rhs = ext_sub(ext_mul(m_next, alpha_minus_f), alpha_minus_t);
    ext_sub(lhs, rhs)
}

} // verus!
