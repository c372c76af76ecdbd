//! The dense form of an equation: every entry of the matrix and of the
//! right-hand side, summed up by the caller's arithmetic.

use vstd::prelude::*;
use vstd::arithmetic::div_mod::{lemma_fundamental_div_mod, lemma_fundamental_div_mod_converse};
use crate::quantity::Term;
use crate::solver::equation::Equation;
use crate::solver::linear_system::{
    cell_terms, input_terms, lemma_cell_terms_push, lemma_input_terms_push, InputStamp, Stamp,
};

verus! {

/// Whether `accumulate` may go from `sums[i]` to `sums[i + 1]` by taking in
/// `terms[i]`.
pub open spec fn takes_in<T, F: Fn(T, Term<T>) -> T>(
    accumulate: F,
    terms: Seq<Term<T>>,
    sums: Seq<T>,
    i: int,
) -> bool {
    call_ensures(accumulate, (sums[i], terms[i]), sums[i + 1])
}

/// Whether `sums` are the partial sums of a run of `accumulate` that
/// starts from `start` and takes in `terms` one after the other, oldest
/// first.
pub open spec fn partial_sums<T, F: Fn(T, Term<T>) -> T>(
    accumulate: F,
    start: T,
    terms: Seq<Term<T>>,
    sums: Seq<T>,
) -> bool {
    &&& sums.len() == terms.len() + 1
    &&& sums[0] == start
    &&& forall|i: int| 0 <= i < terms.len() ==> #[trigger] takes_in(accumulate, terms, sums, i)
}

/// Whether `sum` is a value that `accumulate` may reach from `start` by
/// taking in `terms` one after the other, oldest first.
pub open spec fn sums_to<T, F: Fn(T, Term<T>) -> T>(
    accumulate: F,
    start: T,
    terms: Seq<Term<T>>,
    sum: T,
) -> bool {
    exists|sums: Seq<T>| #[trigger] partial_sums(accumulate, start, terms, sums) && sums.last() == sum
}

/// Without terms the sum is where it started.
pub proof fn lemma_sums_to_start<T, F: Fn(T, Term<T>) -> T>(accumulate: F, start: T)
    ensures
        sums_to(accumulate, start, Seq::<Term<T>>::empty(), start),
{
    let sums = seq![start];
    assert(partial_sums(accumulate, start, Seq::<Term<T>>::empty(), sums));
    assert(sums.last() == start);
}

/// A sum that was reached stays reached when one more term is taken in.
pub proof fn lemma_sums_to_push<T, F: Fn(T, Term<T>) -> T>(
    accumulate: F,
    start: T,
    terms: Seq<Term<T>>,
    before: T,
    term: Term<T>,
    sum: T,
)
    requires
        sums_to(accumulate, start, terms, before),
        call_ensures(accumulate, (before, term), sum),
    ensures
        sums_to(accumulate, start, terms.push(term), sum),
{
    let sums = choose|sums: Seq<T>| #[trigger]
        partial_sums(accumulate, start, terms, sums) && sums.last() == before;
    let longer = sums.push(sum);
    let grown = terms.push(term);
    assert forall|i: int| 0 <= i < grown.len() implies #[trigger] takes_in(
        accumulate,
        grown,
        longer,
        i,
    ) by {
        if i < terms.len() {
            assert(takes_in(accumulate, terms, sums, i));
        }
    }
    assert(partial_sums(accumulate, start, grown, longer));
    assert(longer.last() == sum);
}

/// A matrix of side `size`, row after row, and a right-hand side.
#[derive(Debug)]
pub struct Dense<T> {
    pub size: usize,
    pub admittances: Vec<T>,
    pub inputs: Vec<T>,
}

impl<T> Dense<T> {
    /// The matrix has `size` times `size` entries and the right-hand side
    /// `size`.
    pub open spec fn well_formed(self) -> bool {
        &&& self.admittances@.len() == self.size * self.size
        &&& self.inputs@.len() == self.size
    }

    /// The matrix entry in row `r` and column `c`.
    pub open spec fn entry(self, r: int, c: int) -> T {
        self.admittances@[r * self.size + c]
    }
}

/// In a matrix stored row after row, the entry of row `r` and column `c`
/// has a place of its own, from which row and column are had back.
pub proof fn lemma_row_major(size: int, r: int, c: int)
    requires
        0 <= r < size,
        0 <= c < size,
    ensures
        0 <= r * size + c < size * size,
        (r * size + c) / size == r,
        (r * size + c) % size == c,
{
    assert(0 <= r * size && r * size + size <= size * size) by (nonlinear_arith)
        requires
            0 <= r < size,
    ;
    lemma_fundamental_div_mod_converse(r * size + c, size, r, c);
}

/// `count` copies of `value`.
fn filled<T: Copy>(value: T, count: usize) -> (items: Vec<T>)
    ensures
        items@.len() == count,
        forall|k: int| 0 <= k < count ==> items@[k] == value,
{
    let mut items: Vec<T> = Vec::new();
    let mut k: usize = 0;
    while k < count
        invariant
            k <= count,
            items@.len() == k,
            forall|j: int| 0 <= j < k ==> items@[j] == value,
        decreases count - k,
    {
        items.push(value);
        k += 1;
    }
    items
}

impl<T: Copy> Equation<T> {
    /// The dense form of the equation: every entry starts at `zero` and
    /// takes in, through `accumulate`, the terms stamped into it, oldest
    /// first. There is none where the matrix has more entries than a machine
    /// can number.
    pub fn evaluate<F: Fn(T, Term<T>) -> T>(&self, zero: T, accumulate: F) -> (dense: Option<Dense<T>>)
        requires
            self@.well_formed(),
            forall|sum: T, term: Term<T>| call_requires(accumulate, (sum, term)),
        ensures
            dense is Some <==> self@.size() * self@.size() <= usize::MAX,
            dense is Some ==> {
                &&& dense->Some_0.size == self@.size()
                &&& dense->Some_0.well_formed()
                &&& forall|r: int, c: int|
                    0 <= r < self@.size() && 0 <= c < self@.size() ==> sums_to(
                        accumulate,
                        zero,
                        #[trigger] self@.cell(r, c),
                        dense->Some_0.entry(r, c),
                    )
                &&& forall|r: int|
                    0 <= r < self@.size() ==> sums_to(
                        accumulate,
                        zero,
                        #[trigger] self@.input(r),
                        dense->Some_0.inputs@[r],
                    )
            },
    {
        let size = self.size();
        let entries = match size.checked_mul(size) {
            Some(entries) => entries,
            None => {
                return None;
            },
        };
        let stamps = self.admittances();
        let mut admittances = filled(zero, entries);
        proof {
            lemma_sums_to_start(accumulate, zero);
            assert(stamps@.take(0).len() == 0);
        }
        let mut i: usize = 0;
        while i < stamps.len()
            invariant
                i <= stamps.len(),
                self@.well_formed(),
                stamps@ == self@.admittances,
                size == self@.size(),
                entries == size * size,
                admittances@.len() == entries,
                forall|sum: T, term: Term<T>| call_requires(accumulate, (sum, term)),
                forall|k: int|
                    0 <= k < entries ==> sums_to(
                        accumulate,
                        zero,
                        cell_terms(stamps@.take(i as int), k / (size as int), k % (size as int)),
                        #[trigger] admittances@[k],
                    ),
            decreases stamps.len() - i,
        {
            let stamp = stamps[i];
            proof {
                lemma_row_major(size as int, stamp.row as int, stamp.col as int);
            }
            let place = stamp.row * size + stamp.col;
            let before = admittances[place];
            let after = accumulate(before, stamp.term);
            let ghost earlier = admittances@;
            admittances.set(place, after);
            proof {
                let taken = stamps@.take(i as int);
                assert(stamps@.take(i as int + 1) == taken.push(stamp));
                assert forall|k: int| 0 <= k < entries implies sums_to(
                    accumulate,
                    zero,
                    cell_terms(stamps@.take(i as int + 1), k / (size as int), k % (size as int)),
                    #[trigger] admittances@[k],
                ) by {
                    let r = k / (size as int);
                    let c = k % (size as int);
                    lemma_cell_terms_push(taken, stamp, r, c);
                    lemma_fundamental_div_mod(k, size as int);
                    assert(sums_to(accumulate, zero, cell_terms(taken, r, c), earlier[k]));
                    if k == place {
                        lemma_sums_to_push(
                            accumulate,
                            zero,
                            cell_terms(taken, r, c),
                            before,
                            stamp.term,
                            after,
                        );
                    } else {
                        assert(size * r == r * size) by (nonlinear_arith);
                    }
                }
            }
            i += 1;
        }
        let rows = self.inputs();
        let mut inputs = filled(zero, size);
        proof {
            assert(rows@.take(0).len() == 0);
        }
        let mut j: usize = 0;
        while j < rows.len()
            invariant
                j <= rows.len(),
                self@.well_formed(),
                rows@ == self@.inputs,
                size == self@.size(),
                inputs@.len() == size,
                forall|sum: T, term: Term<T>| call_requires(accumulate, (sum, term)),
                forall|k: int|
                    0 <= k < size ==> sums_to(
                        accumulate,
                        zero,
                        input_terms(rows@.take(j as int), k),
                        #[trigger] inputs@[k],
                    ),
            decreases rows.len() - j,
        {
            let stamp = rows[j];
            let before = inputs[stamp.row];
            let after = accumulate(before, stamp.term);
            let ghost earlier = inputs@;
            inputs.set(stamp.row, after);
            proof {
                let taken = rows@.take(j as int);
                assert(rows@.take(j as int + 1) == taken.push(stamp));
                assert forall|k: int| 0 <= k < size implies sums_to(
                    accumulate,
                    zero,
                    input_terms(rows@.take(j as int + 1), k),
                    #[trigger] inputs@[k],
                ) by {
                    lemma_input_terms_push(taken, stamp, k);
                    assert(sums_to(accumulate, zero, input_terms(taken, k), earlier[k]));
                    if k == stamp.row {
                        lemma_sums_to_push(
                            accumulate,
                            zero,
                            input_terms(taken, k),
                            before,
                            stamp.term,
                            after,
                        );
                    }
                }
            }
            j += 1;
        }
        let dense = Dense { size, admittances, inputs };
        proof {
            assert(stamps@.take(stamps@.len() as int) == stamps@);
            assert(rows@.take(rows@.len() as int) == rows@);
            assert forall|r: int, c: int| 0 <= r < self@.size() && 0 <= c < self@.size() implies sums_to(
                accumulate,
                zero,
                #[trigger] self@.cell(r, c),
                dense.entry(r, c),
            ) by {
                lemma_row_major(size as int, r, c);
            }
        }
        Some(dense)
    }
}

} // verus!
