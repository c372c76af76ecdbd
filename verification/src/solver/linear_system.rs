//! The mathematical content of a nodal system: which terms have been stamped
//! into which entries, in the order of stamping.

use vstd::prelude::*;
use crate::quantity::{Quantity, Sign, Term};

verus! {

/// A contribution to the entry of the admittance matrix in row `row` and
/// column `col`, both counted from zero in the reduced system.
#[derive(Debug, PartialEq)]
pub struct Stamp<T> {
    pub row: usize,
    pub col: usize,
    pub term: Term<T>,
}

/// A contribution to the entry of the right-hand side in row `row`, counted
/// from zero in the reduced system.
#[derive(Debug, PartialEq)]
pub struct InputStamp<T> {
    pub row: usize,
    pub term: Term<T>,
}

/// A system under assembly: `nodes` nodes, ground included, `voltage_sources`
/// declared voltage-source branches of which `stamped` stamps were asked for
/// so far, and every contribution recorded, oldest first.
///
/// Row and column `i` of the reduced system stand for node `i + 1` where
/// `i < nodes - 1`, and for branch `i - (nodes - 1)` from there on. Ground,
/// node 0, has no row and no column.
pub struct LinearSystem<T> {
    pub nodes: nat,
    pub voltage_sources: nat,
    pub stamped: nat,
    pub admittances: Seq<Stamp<T>>,
    pub inputs: Seq<InputStamp<T>>,
}

impl<T> LinearSystem<T> {
    /// The system of the given dimensions into which nothing was stamped.
    pub open spec fn empty(nodes: nat, voltage_sources: nat) -> Self {
        LinearSystem {
            nodes,
            voltage_sources,
            stamped: 0,
            admittances: Seq::empty(),
            inputs: Seq::empty(),
        }
    }

    /// The side of the matrix and the length of the right-hand side.
    pub open spec fn size(self) -> int {
        self.nodes + self.voltage_sources - 1
    }

    /// Ground exists, the size is one that a machine can hold, and every
    /// recorded contribution lies inside the system.
    pub open spec fn well_formed(self) -> bool {
        &&& self.nodes >= 1
        &&& self.size() <= usize::MAX
        &&& forall|i: int|
            0 <= i < self.admittances.len() ==> (#[trigger] self.admittances[i]).row < self.size()
                && self.admittances[i].col < self.size()
        &&& forall|i: int| 0 <= i < self.inputs.len() ==> (#[trigger] self.inputs[i]).row < self.size()
    }

    /// Whether `index`, a node number or the number `nodes + branch` that a
    /// branch goes by, names ground or a row of the system.
    pub open spec fn in_range(self, index: int) -> bool {
        0 <= index <= self.size()
    }

    /// The terms stamped into the matrix entry in row `r` and column `c` of
    /// the reduced system, oldest first: the entry is their sum.
    pub open spec fn cell(self, r: int, c: int) -> Seq<Term<T>> {
        cell_terms(self.admittances, r, c)
    }

    /// The terms stamped into the right-hand side entry in row `r` of the
    /// reduced system, oldest first: the entry is their sum.
    pub open spec fn input(self, r: int) -> Seq<Term<T>> {
        input_terms(self.inputs, r)
    }

    /// Adds `x` to the matrix entry of `row` and `col`, unless either of them
    /// is ground.
    pub open spec fn stamp_admittance(self, row: int, col: int, x: Term<T>) -> Self {
        if row != 0 && col != 0 {
            LinearSystem {
                admittances: self.admittances.push(
                    Stamp { row: (row - 1) as usize, col: (col - 1) as usize, term: x },
                ),
                ..self
            }
        } else {
            self
        }
    }

    /// Adds `x` to the right-hand side entry of `row`, unless it is ground.
    pub open spec fn stamp_input(self, row: int, x: Term<T>) -> Self {
        if row != 0 {
            LinearSystem {
                inputs: self.inputs.push(InputStamp { row: (row - 1) as usize, term: x }),
                ..self
            }
        } else {
            self
        }
    }

    /// A conductance `g` between the nodes `a` and `b`: `+g` on the two
    /// diagonal entries, `-g` on the two entries off the diagonal.
    pub open spec fn stamp_conductance(self, g: Quantity<T>, a: int, b: int) -> Self {
        let plus = Term { sign: Sign::Plus, quantity: g };
        let minus = Term { sign: Sign::Minus, quantity: g };
        self.stamp_admittance(a, a, plus).stamp_admittance(b, b, plus).stamp_admittance(
            a,
            b,
            minus,
        ).stamp_admittance(b, a, minus)
    }

    /// A current `i` that flows from node `from` to node `to`: `-i` into the
    /// right-hand side at `from`, `+i` at `to`.
    pub open spec fn stamp_current_source(self, i: Quantity<T>, from: int, to: int) -> Self {
        self.stamp_input(from, Term { sign: Sign::Minus, quantity: i }).stamp_input(
            to,
            Term { sign: Sign::Plus, quantity: i },
        )
    }

    /// One more voltage source asked for, and nothing else.
    pub open spec fn count_voltage_source(self) -> Self {
        LinearSystem { stamped: self.stamped + 1, ..self }
    }

    /// A voltage source of `v` volts between `from` and `to` on branch
    /// `branch`. The stamp is counted in any case; it is carried out only
    /// while the count stays within the declared number of voltage sources.
    pub open spec fn stamp_voltage_source(self, v: Quantity<T>, from: int, to: int, branch: int) -> Self {
        let counted = self.count_voltage_source();
        if counted.stamped > self.voltage_sources {
            counted
        } else {
            let k = self.nodes + branch;
            let plus = Term { sign: Sign::Plus, quantity: Quantity::One };
            let minus = Term { sign: Sign::Minus, quantity: Quantity::One };
            counted.stamp_admittance(k, from, minus).stamp_admittance(k, to, plus).stamp_admittance(
                from,
                k,
                plus,
            ).stamp_admittance(to, k, minus).stamp_input(k, Term { sign: Sign::Plus, quantity: v })
        }
    }
}

/// The terms of those of `stamps` that go to row `r` and column `c`, in
/// their order.
pub open spec fn cell_terms<T>(stamps: Seq<Stamp<T>>, r: int, c: int) -> Seq<Term<T>>
    decreases stamps.len(),
{
    if stamps.len() == 0 {
        Seq::empty()
    } else if stamps.last().row == r && stamps.last().col == c {
        cell_terms(stamps.drop_last(), r, c).push(stamps.last().term)
    } else {
        cell_terms(stamps.drop_last(), r, c)
    }
}

/// The terms of those of `stamps` that go to row `r`, in their order.
pub open spec fn input_terms<T>(stamps: Seq<InputStamp<T>>, r: int) -> Seq<Term<T>>
    decreases stamps.len(),
{
    if stamps.len() == 0 {
        Seq::empty()
    } else if stamps.last().row == r {
        input_terms(stamps.drop_last(), r).push(stamps.last().term)
    } else {
        input_terms(stamps.drop_last(), r)
    }
}

/// One more stamp adds its term to the entry it goes to and to no other.
pub proof fn lemma_cell_terms_push<T>(stamps: Seq<Stamp<T>>, stamp: Stamp<T>, r: int, c: int)
    ensures
        cell_terms(stamps.push(stamp), r, c) == if stamp.row == r && stamp.col == c {
            cell_terms(stamps, r, c).push(stamp.term)
        } else {
            cell_terms(stamps, r, c)
        },
{
    assert(stamps.push(stamp).drop_last() == stamps);
}

/// One more stamp adds its term to the row it goes to and to no other.
pub proof fn lemma_input_terms_push<T>(stamps: Seq<InputStamp<T>>, stamp: InputStamp<T>, r: int)
    ensures
        input_terms(stamps.push(stamp), r) == if stamp.row == r {
            input_terms(stamps, r).push(stamp.term)
        } else {
            input_terms(stamps, r)
        },
{
    assert(stamps.push(stamp).drop_last() == stamps);
}

/// What a stamp into the entry of `row` and `col` does to the entry in row
/// `r` and column `c` of the reduced system: where neither `row` nor `col`
/// is ground and `r`, `c` is the entry they name, `x` is added to it; in
/// every other case it stays as it was.
pub proof fn lemma_stamp_admittance_cell<T>(
    system: LinearSystem<T>,
    row: int,
    col: int,
    x: Term<T>,
    r: int,
    c: int,
)
    requires
        0 <= row <= usize::MAX,
        0 <= col <= usize::MAX,
    ensures
        system.stamp_admittance(row, col, x).cell(r, c) == if row != 0 && col != 0 && r == row - 1
            && c == col - 1 {
            system.cell(r, c).push(x)
        } else {
            system.cell(r, c)
        },
        forall|k: int| system.stamp_admittance(row, col, x).input(k) == system.input(k),
{
    if row != 0 && col != 0 {
        lemma_cell_terms_push(
            system.admittances,
            Stamp { row: (row - 1) as usize, col: (col - 1) as usize, term: x },
            r,
            c,
        );
    }
}

/// What a stamp into the right-hand side at `row` does to the entry in row
/// `r` of the reduced system: where `row` is not ground and names `r`, `x`
/// is added to it; in every other case it stays as it was.
pub proof fn lemma_stamp_input_row<T>(system: LinearSystem<T>, row: int, x: Term<T>, r: int)
    requires
        0 <= row <= usize::MAX,
    ensures
        system.stamp_input(row, x).input(r) == if row != 0 && r == row - 1 {
            system.input(r).push(x)
        } else {
            system.input(r)
        },
        forall|i: int, j: int| system.stamp_input(row, x).cell(i, j) == system.cell(i, j),
{
    if row != 0 {
        lemma_input_terms_push(system.inputs, InputStamp { row: (row - 1) as usize, term: x }, r);
    }
}

/// A conductance `g` between two different nodes off ground adds `+g` to
/// the diagonal entry of each and `-g` to the two entries that couple
/// them, and changes no other entry.
pub proof fn lemma_stamp_conductance_cells<T>(
    system: LinearSystem<T>,
    g: Quantity<T>,
    a: int,
    b: int,
    r: int,
    c: int,
)
    requires
        0 < a <= usize::MAX,
        0 < b <= usize::MAX,
        a != b,
    ensures
        system.stamp_conductance(g, a, b).cell(r, c) == if (r == a - 1 && c == a - 1) || (r == b - 1
            && c == b - 1) {
            system.cell(r, c).push(Term { sign: Sign::Plus, quantity: g })
        } else if (r == a - 1 && c == b - 1) || (r == b - 1 && c == a - 1) {
            system.cell(r, c).push(Term { sign: Sign::Minus, quantity: g })
        } else {
            system.cell(r, c)
        },
{
    let plus = Term { sign: Sign::Plus, quantity: g };
    let minus = Term { sign: Sign::Minus, quantity: g };
    let s1 = system.stamp_admittance(a, a, plus);
    let s2 = s1.stamp_admittance(b, b, plus);
    let s3 = s2.stamp_admittance(a, b, minus);
    lemma_stamp_admittance_cell(system, a, a, plus, r, c);
    lemma_stamp_admittance_cell(s1, b, b, plus, r, c);
    lemma_stamp_admittance_cell(s2, a, b, minus, r, c);
    lemma_stamp_admittance_cell(s3, b, a, minus, r, c);
}

/// A conductance from a node `a` off ground to ground adds `+g` to the
/// diagonal entry of `a` and changes no other entry: ground has no row and
/// no column to take the rest.
pub proof fn lemma_stamp_conductance_to_ground<T>(
    system: LinearSystem<T>,
    g: Quantity<T>,
    a: int,
    r: int,
    c: int,
)
    requires
        0 < a <= usize::MAX,
    ensures
        system.stamp_conductance(g, a, 0).cell(r, c) == if r == a - 1 && c == a - 1 {
            system.cell(r, c).push(Term { sign: Sign::Plus, quantity: g })
        } else {
            system.cell(r, c)
        },
        system.stamp_conductance(g, 0, a) == system.stamp_conductance(g, a, 0),
        system.stamp_conductance(g, 0, 0) == system,
{
    lemma_stamp_admittance_cell(system, a, a, Term { sign: Sign::Plus, quantity: g }, r, c);
}

/// A current source from `from` to `to` adds `-i` to the right-hand side
/// at `from` and `+i` at `to`, each unless it is ground, and changes
/// nothing else.
pub proof fn lemma_stamp_current_source_rows<T>(
    system: LinearSystem<T>,
    i: Quantity<T>,
    from: int,
    to: int,
    r: int,
)
    requires
        0 <= from <= usize::MAX,
        0 <= to <= usize::MAX,
        from != to,
    ensures
        system.stamp_current_source(i, from, to).input(r) == if from != 0 && r == from - 1 {
            system.input(r).push(Term { sign: Sign::Minus, quantity: i })
        } else if to != 0 && r == to - 1 {
            system.input(r).push(Term { sign: Sign::Plus, quantity: i })
        } else {
            system.input(r)
        },
        system.stamp_current_source(i, from, to).admittances == system.admittances,
{
    let minus = Term { sign: Sign::Minus, quantity: i };
    lemma_stamp_input_row(system, from, minus, r);
    lemma_stamp_input_row(system.stamp_input(from, minus), to, Term { sign: Sign::Plus, quantity: i }, r);
}

/// Stamping into an entry keeps a well-formed system well-formed and leaves
/// its dimensions and its count of voltage sources as they were.
pub proof fn lemma_stamp_admittance_preserves<T>(system: LinearSystem<T>, row: int, col: int, x: Term<T>)
    requires
        system.well_formed(),
        system.in_range(row),
        system.in_range(col),
    ensures
        system.stamp_admittance(row, col, x).well_formed(),
        system.stamp_admittance(row, col, x).nodes == system.nodes,
        system.stamp_admittance(row, col, x).voltage_sources == system.voltage_sources,
        system.stamp_admittance(row, col, x).stamped == system.stamped,
        system.stamp_admittance(row, col, x).inputs == system.inputs,
{
}

/// Stamping into the right-hand side keeps a well-formed system well-formed
/// and leaves its dimensions, its count and its matrix as they were.
pub proof fn lemma_stamp_input_preserves<T>(system: LinearSystem<T>, row: int, x: Term<T>)
    requires
        system.well_formed(),
        system.in_range(row),
    ensures
        system.stamp_input(row, x).well_formed(),
        system.stamp_input(row, x).nodes == system.nodes,
        system.stamp_input(row, x).voltage_sources == system.voltage_sources,
        system.stamp_input(row, x).stamped == system.stamped,
        system.stamp_input(row, x).admittances == system.admittances,
{
}

/// A conductance stamp keeps a well-formed system well-formed and touches
/// nothing but the matrix.
pub proof fn lemma_stamp_conductance_preserves<T>(system: LinearSystem<T>, g: Quantity<T>, a: int, b: int)
    requires
        system.well_formed(),
        system.in_range(a),
        system.in_range(b),
    ensures
        system.stamp_conductance(g, a, b).well_formed(),
        system.stamp_conductance(g, a, b).nodes == system.nodes,
        system.stamp_conductance(g, a, b).voltage_sources == system.voltage_sources,
        system.stamp_conductance(g, a, b).stamped == system.stamped,
        system.stamp_conductance(g, a, b).inputs == system.inputs,
{
    let plus = Term { sign: Sign::Plus, quantity: g };
    let minus = Term { sign: Sign::Minus, quantity: g };
    let s1 = system.stamp_admittance(a, a, plus);
    lemma_stamp_admittance_preserves(system, a, a, plus);
    let s2 = s1.stamp_admittance(b, b, plus);
    lemma_stamp_admittance_preserves(s1, b, b, plus);
    let s3 = s2.stamp_admittance(a, b, minus);
    lemma_stamp_admittance_preserves(s2, a, b, minus);
    lemma_stamp_admittance_preserves(s3, b, a, minus);
}

/// A current-source stamp keeps a well-formed system well-formed and
/// touches nothing but the right-hand side.
pub proof fn lemma_stamp_current_source_preserves<T>(
    system: LinearSystem<T>,
    i: Quantity<T>,
    from: int,
    to: int,
)
    requires
        system.well_formed(),
        system.in_range(from),
        system.in_range(to),
    ensures
        system.stamp_current_source(i, from, to).well_formed(),
        system.stamp_current_source(i, from, to).nodes == system.nodes,
        system.stamp_current_source(i, from, to).voltage_sources == system.voltage_sources,
        system.stamp_current_source(i, from, to).stamped == system.stamped,
        system.stamp_current_source(i, from, to).admittances == system.admittances,
{
    let minus = Term { sign: Sign::Minus, quantity: i };
    lemma_stamp_input_preserves(system, from, minus);
    lemma_stamp_input_preserves(system.stamp_input(from, minus), to, Term { sign: Sign::Plus, quantity: i });
}

/// A voltage-source stamp counts one source more, keeps a well-formed
/// system well-formed and leaves its dimensions as they were.
pub proof fn lemma_stamp_voltage_source_preserves<T>(
    system: LinearSystem<T>,
    v: Quantity<T>,
    from: int,
    to: int,
    branch: int,
)
    requires
        system.well_formed(),
        system.stamped < system.voltage_sources ==> 0 <= branch < system.voltage_sources
            && system.in_range(from) && system.in_range(to),
    ensures
        system.stamp_voltage_source(v, from, to, branch).well_formed(),
        system.stamp_voltage_source(v, from, to, branch).nodes == system.nodes,
        system.stamp_voltage_source(v, from, to, branch).voltage_sources == system.voltage_sources,
        system.stamp_voltage_source(v, from, to, branch).stamped == system.stamped + 1,
{
    let counted = system.count_voltage_source();
    if counted.stamped <= system.voltage_sources {
        let k = system.nodes + branch;
        let plus = Term { sign: Sign::Plus, quantity: Quantity::<T>::One };
        let minus = Term { sign: Sign::Minus, quantity: Quantity::<T>::One };
        let s1 = counted.stamp_admittance(k, from, minus);
        lemma_stamp_admittance_preserves(counted, k, from, minus);
        let s2 = s1.stamp_admittance(k, to, plus);
        lemma_stamp_admittance_preserves(s1, k, to, plus);
        let s3 = s2.stamp_admittance(from, k, plus);
        lemma_stamp_admittance_preserves(s2, from, k, plus);
        let s4 = s3.stamp_admittance(to, k, minus);
        lemma_stamp_admittance_preserves(s3, to, k, minus);
        lemma_stamp_input_preserves(s4, k, Term { sign: Sign::Plus, quantity: v });
    }
}

impl<T: Copy> Clone for Stamp<T> {
    fn clone(&self) -> (copy: Self)
        ensures
            copy == *self,
    {
        *self
    }
}

impl<T: Copy> Copy for Stamp<T> {
}

impl<T: Copy> Clone for InputStamp<T> {
    fn clone(&self) -> (copy: Self)
        ensures
            copy == *self,
    {
        *self
    }
}

impl<T: Copy> Copy for InputStamp<T> {
}

} // verus!
