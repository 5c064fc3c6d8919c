use vstd::prelude::*;

verus! {

/// One possible outcome of a table: a label and the roll values it claims.
/// Duplicates and gaps among the numbers are allowed.
#[derive(Debug)]
pub struct Entry {
    pub name: String,
    pub numbers: Vec<u32>,
}

/// A named, ordered list of entries together with its default dice expression.
/// The order of the rows decides between entries that claim the same value.
#[derive(Debug)]
pub struct Table {
    pub name: String,
    pub rows: Vec<Entry>,
    pub roll: String,
}

impl Entry {
    /// Whether this entry claims the roll value `value`.
    pub open spec fn claims(&self, value: u32) -> bool {
        self.numbers@.contains(value)
    }

    /// Whether this entry claims the roll value `value`.
    pub fn has_number(&self, value: u32) -> (r: bool)
        ensures
            r == self.claims(value),
    {
        let mut i: usize = 0;
        while i < self.numbers.len()
            invariant
                i <= self.numbers.len(),
                forall|j: int| 0 <= j < i ==> self.numbers@[j] != value,
            decreases self.numbers.len() - i,
        {
            if self.numbers[i] == value {
                assert(self.numbers@[i as int] == value);
                return true;
            }
            i = i + 1;
        }
        false
    }
}

/// Row `i` is the first of `rows` that claims `value`.
pub open spec fn is_first_claiming(rows: Seq<Entry>, value: u32, i: int) -> bool {
    &&& 0 <= i < rows.len()
    &&& rows[i].claims(value)
    &&& forall|j: int| 0 <= j < i ==> !(#[trigger] rows[j]).claims(value)
}

/// No row of `rows` claims `value`.
pub open spec fn none_claims(rows: Seq<Entry>, value: u32) -> bool {
    forall|i: int| 0 <= i < rows.len() ==> !(#[trigger] rows[i]).claims(value)
}

/// What resolving `value` against `rows` gives: the first row that claims it,
/// or nothing when no row does.
pub open spec fn resolves_to(rows: Seq<Entry>, value: u32, r: Option<&Entry>) -> bool {
    match r {
        Some(e) => exists|i: int| is_first_claiming(rows, value, i) && *e == rows[i],
        None => none_claims(rows, value),
    }
}

impl Table {
    /// The first row, in table order, that claims the roll value `value`.
    pub fn find_entry(&self, value: u32) -> (r: Option<&Entry>)
        ensures
            resolves_to(self.rows@, value, r),
    {
        let mut i: usize = 0;
        while i < self.rows.len()
            invariant
                i <= self.rows.len(),
                forall|j: int| 0 <= j < i ==> !(#[trigger] self.rows@[j]).claims(value),
            decreases self.rows.len() - i,
        {
            let entry = &self.rows[i];
            if entry.has_number(value) {
                assert(is_first_claiming(self.rows@, value, i as int));
                return Some(entry);
            }
            i = i + 1;
        }
        None
    }
}

} // verus!
