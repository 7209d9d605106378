//! The results of the formulas, by kind.
use vstd::prelude::*;

use crate::value::F64Bits;

verus! {

/// The result of one formula: the id of what it was calculated for, and the
/// value, as the bits of a double, where there is one.
#[derive(Clone, Copy, PartialEq, Eq, Debug)]
pub struct FormulaResultData {
    pub id: i64,
    pub value: Option<F64Bits>,
}

/// The results of the budget formulas and of the row formulas, each in the order
/// they were pushed.
#[derive(Debug)]
pub struct FormulaResults {
    pub budget: Vec<FormulaResultData>,
    pub row: Vec<FormulaResultData>,
}

impl FormulaResults {
    /// No results yet.
    pub fn new() -> (r: Self)
        ensures
            r.budget@ == Seq::<FormulaResultData>::empty(),
            r.row@ == Seq::<FormulaResultData>::empty(),
    {
        Self { budget: vec![], row: vec![] }
    }

    /// Appends `value` to the row results where `formula_type` is `row`, to the
    /// budget results where it is `budget`; any other type is ignored.
    pub fn push(&mut self, formula_type: String, value: FormulaResultData)
        ensures
            formula_type@ == "row"@ ==> final(self).row@ == old(self).row@.push(value)
                && final(self).budget@ == old(self).budget@,
            formula_type@ != "row"@ && formula_type@ == "budget"@ ==> final(self).budget@ == old(
                self,
            ).budget@.push(value) && final(self).row@ == old(self).row@,
            formula_type@ != "row"@ && formula_type@ != "budget"@ ==> final(self).budget@ == old(
                self,
            ).budget@ && final(self).row@ == old(self).row@,
    {
        if formula_type == "row".to_string() {
            self.row.push(value);
            return;
        }
        if formula_type == "budget".to_string() {
            self.budget.push(value);
        }
    }
}

} // verus!
