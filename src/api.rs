use vstd::prelude::*;

use crate::dice::{dice_error, evaluate, possible_sum};
use crate::table::{resolves_to, Entry, Table};

verus! {

/// `value` and `entry` are what rolling `dice` on a table with rows `rows`
/// can give: a possible sum of the dice (0 when they cannot be evaluated),
/// and the first row that claims it.
pub open spec fn is_roll_outcome(
    rows: Seq<Entry>,
    dice: Seq<char>,
    value: u32,
    entry: Option<&Entry>,
) -> bool {
    &&& dice_error(dice) is Some ==> value == 0
    &&& dice_error(dice) is None ==> possible_sum(dice, value)
    &&& resolves_to(rows, value, entry)
}

/// Rolls the dice that `dice` writes; `None` when it cannot be evaluated.
pub fn roll(dice: &str) -> (r: Option<u32>)
    ensures
        r is None <==> dice_error(dice@) is Some,
        r matches Some(v) ==> possible_sum(dice@, v),
{
    match evaluate(dice) {
        Ok(v) => Some(v),
        Err(_) => None,
    }
}

/// Rolls `dice` and looks the sum up in `table`: the roll value, and the first
/// row in table order that claims it. Dice that cannot be evaluated count as
/// a roll of 0, which is still looked up.
pub fn roll_on<'a>(table: &'a Table, dice: &str) -> (r: (u32, Option<&'a Entry>))
    ensures
        is_roll_outcome(table.rows@, dice@, r.0, r.1),
{
    let total = match roll(dice) {
        Some(v) => v,
        None => 0,
    };
    (total, table.find_entry(total))
}

} // verus!
