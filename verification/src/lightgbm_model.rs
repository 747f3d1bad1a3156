//! How a gradient-boosting model wants its input laid out: which feature
//! stands in which column, and how many there are.
//!
//! A caller may hand in the columns in any order. [`LightgbmModel::reorder`]
//! brings the values of one row into the model's order by swapping, one
//! misplaced column at a time.

use vstd::prelude::*;
use vstd::set_lib::{lemma_int_range, lemma_len_subset, set_int_range};
use crate::text::copy_names;

verus! {

/// `s` with the items at `i` and `j` exchanged.
pub open spec fn swapped<A>(s: Seq<A>, i: int, j: int) -> Seq<A> {
    s.update(i, s[j]).update(j, s[i])
}

/// The first position from `from` up to `n` at which `names` holds
/// `column`; `n` where there is none.
pub open spec fn first_at(names: Seq<Seq<char>>, column: Seq<char>, from: int, n: int) -> int
    decreases n - from,
{
    if from >= n {
        n
    } else if names[from] == column {
        from
    } else {
        first_at(names, column, from + 1, n)
    }
}

/// The next swap, looking from position `i` on: the first column that is
/// not where the model has it and that the model has at or after its
/// place, together with the first such place.
pub open spec fn swap_from(names: Seq<Seq<char>>, columns: Seq<Seq<char>>, i: int) -> Option<
    (int, int),
>
    decreases columns.len() - i,
{
    let n = columns.len() as int;
    if i < 0 || i >= n {
        None
    } else if columns[i] != names[i] && first_at(names, columns[i], i, n) < n {
        Some((i, first_at(names, columns[i], i, n)))
    } else {
        swap_from(names, columns, i + 1)
    }
}

/// The positions whose column is not the one the model has there.
pub open spec fn misplaced(names: Seq<Seq<char>>, columns: Seq<Seq<char>>) -> Set<int> {
    Set::new(|k: int| 0 <= k < columns.len() && columns[k] != names[k])
}

/// What `reorder` asks of its columns: no name twice, and no more columns
/// than the model has features.
pub open spec fn can_align(names: Seq<Seq<char>>, columns: Seq<Seq<char>>) -> bool {
    columns.no_duplicates() && columns.len() <= names.len()
}

/// Columns and values once no swap is left: the swap that `swap_from`
/// finds is made on both, again and again.
pub open spec fn settled<T>(names: Seq<Seq<char>>, columns: Seq<Seq<char>>, values: Seq<T>) -> (
    Seq<Seq<char>>,
    Seq<T>,
)
    decreases misplaced(names, columns).len(),
    when can_align(names, columns)
{
    match swap_from(names, columns, 0) {
        None => (columns, values),
        Some((i, j)) => {
            proof {
                lemma_swap_progress(names, columns);
            }
            settled(names, swapped(columns, i, j), swapped(values, i, j))
        },
    }
}

/// `first_at` stops inside `from..=n`, at `column` where it stops before
/// `n`, and passes no `column` on its way.
pub proof fn lemma_first_at(names: Seq<Seq<char>>, column: Seq<char>, from: int, n: int)
    requires
        from <= n,
    ensures
        from <= first_at(names, column, from, n) <= n,
        first_at(names, column, from, n) < n ==> names[first_at(names, column, from, n)]
            == column,
        forall|k: int| from <= k < first_at(names, column, from, n) ==> names[k] != column,
    decreases n - from,
{
    if from < n && names[from] != column {
        lemma_first_at(names, column, from + 1, n);
    }
}

/// What `swap_from` finds is a misplaced column and the first place at or
/// after it where the model has that column; every column that it passes
/// is in place or has no such place. It finds nothing only where that
/// holds of every column from `from` on.
pub proof fn lemma_swap_from(names: Seq<Seq<char>>, columns: Seq<Seq<char>>, from: int)
    requires
        0 <= from,
    ensures
        match swap_from(names, columns, from) {
            Some((i, j)) => {
                &&& from <= i < j < columns.len()
                &&& columns[i] != names[i]
                &&& names[j] == columns[i]
                &&& j == first_at(names, columns[i], i, columns.len() as int)
            },
            None => forall|k: int|
                from <= k < columns.len() ==> columns[k] == names[k] || first_at(
                    names,
                    #[trigger] columns[k],
                    k,
                    columns.len() as int,
                ) == columns.len(),
        },
    decreases columns.len() - from,
{
    let n = columns.len() as int;
    if from < n {
        lemma_first_at(names, columns[from], from, n);
        if !(columns[from] != names[from] && first_at(names, columns[from], from, n) < n) {
            lemma_swap_from(names, columns, from + 1);
        }
    }
}

/// A swap puts one more column in place for good: afterwards fewer
/// positions are misplaced, and still no name stands twice.
pub proof fn lemma_swap_progress(names: Seq<Seq<char>>, columns: Seq<Seq<char>>)
    requires
        can_align(names, columns),
        swap_from(names, columns, 0) is Some,
    ensures
        ({
            let (i, j) = swap_from(names, columns, 0)->Some_0;
            &&& can_align(names, swapped(columns, i, j))
            &&& misplaced(names, columns).finite()
            &&& misplaced(names, swapped(columns, i, j)).len() < misplaced(names, columns).len()
        }),
{
    let (i, j) = swap_from(names, columns, 0)->Some_0;
    let n = columns.len() as int;
    lemma_swap_from(names, columns, 0);
    let after = swapped(columns, i, j);
    let before_set = misplaced(names, columns);
    let after_set = misplaced(names, after);
    lemma_int_range(0, n);
    assert(before_set.subset_of(set_int_range(0, n)));
    lemma_len_subset(before_set, set_int_range(0, n));
    assert(columns[j] != columns[i]);
    assert(before_set.contains(j));
    assert(!after_set.contains(j));
    assert forall|k: int| after_set.contains(k) implies before_set.remove(j).contains(k) by {
        if k != i && k != j {
            assert(after[k] == columns[k]);
        }
    }
    assert(after_set.subset_of(before_set.remove(j)));
    lemma_len_subset(after_set, before_set.remove(j));
    assert forall|a: int, b: int| 0 <= a < after.len() && 0 <= b < after.len() && a != b implies after[a]
        != after[b] by {
        let pa = if a == i { j } else if a == j { i } else { a };
        let pb = if b == i { j } else if b == j { i } else { b };
        assert(after[a] == columns[pa] && after[b] == columns[pb] && pa != pb);
    }
}

/// Whether `values` holds `value` at position `m`, under the column `name`.
pub open spec fn pair_at<T>(columns: Seq<Seq<char>>, values: Seq<T>, m: int, name: Seq<char>, value: T) -> bool {
    0 <= m < columns.len() && columns[m] == name && values[m] == value
}

/// Whether `values` holds `value` somewhere under the column `name`.
pub open spec fn has_pair<T>(columns: Seq<Seq<char>>, values: Seq<T>, name: Seq<char>, value: T) -> bool {
    exists|m: int| pair_at(columns, values, m, name, value)
}

/// Reordering rearranges and nothing else: as many columns and values come
/// out as went in, each value still under its column, every column and
/// value of the input among them, no name twice; and no swap is left.
pub proof fn settled_rearranges<T>(names: Seq<Seq<char>>, columns: Seq<Seq<char>>, values: Seq<T>)
    requires
        can_align(names, columns),
        values.len() == columns.len(),
    ensures
        ({
            let (cols, vals) = settled(names, columns, values);
            &&& cols.len() == columns.len()
            &&& vals.len() == columns.len()
            &&& cols.no_duplicates()
            &&& swap_from(names, cols, 0) is None
            &&& forall|k: int|
                #![trigger cols[k]]
                0 <= k < cols.len() ==> has_pair(columns, values, cols[k], vals[k])
            &&& forall|m: int|
                #![trigger columns[m]]
                0 <= m < columns.len() ==> has_pair(cols, vals, columns[m], values[m])
        }),
    decreases misplaced(names, columns).len(),
{
    let (cols, vals) = settled(names, columns, values);
    match swap_from(names, columns, 0) {
        None => {
            assert forall|k: int| #![trigger cols[k]] 0 <= k < cols.len() implies has_pair(
                columns,
                values,
                cols[k],
                vals[k],
            ) by {
                assert(pair_at(columns, values, k, cols[k], vals[k]));
            }
            assert forall|m: int| #![trigger columns[m]] 0 <= m < columns.len() implies has_pair(
                cols,
                vals,
                columns[m],
                values[m],
            ) by {
                assert(pair_at(cols, vals, m, columns[m], values[m]));
            }
        },
        Some((i, j)) => {
            lemma_swap_from(names, columns, 0);
            lemma_swap_progress(names, columns);
            let columns1 = swapped(columns, i, j);
            let values1 = swapped(values, i, j);
            settled_rearranges(names, columns1, values1);
            assert forall|k: int| #![trigger cols[k]] 0 <= k < cols.len() implies has_pair(
                columns,
                values,
                cols[k],
                vals[k],
            ) by {
                assert(has_pair(columns1, values1, cols[k], vals[k]));
                let m1 = choose|m1: int| pair_at(columns1, values1, m1, cols[k], vals[k]);
                let m = if m1 == i { j } else if m1 == j { i } else { m1 };
                assert(pair_at(columns, values, m, cols[k], vals[k]));
            }
            assert forall|m: int| #![trigger columns[m]] 0 <= m < columns.len() implies has_pair(
                cols,
                vals,
                columns[m],
                values[m],
            ) by {
                let m1 = if m == i { j } else if m == j { i } else { m };
                assert(columns1[m1] == columns[m] && values1[m1] == values[m]);
                assert(has_pair(cols, vals, columns1[m1], values1[m1]));
            }
        },
    }
}

/// Where the columns handed in are the model's first features in some
/// order, reordering brings them into the model's order exactly: the
/// value that came under a feature's name ends up at that feature's
/// position.
pub proof fn values_follow_their_columns<T>(names: Seq<Seq<char>>, columns: Seq<Seq<char>>, values: Seq<T>)
    requires
        can_align(names, columns),
        values.len() == columns.len(),
        forall|i: int|
            0 <= i < columns.len() ==> exists|p: int|
                0 <= p < columns.len() && names[p] == #[trigger] columns[i],
    ensures
        settled(names, columns, values).0 == names.take(columns.len() as int),
        forall|k: int, m: int|
            0 <= k < columns.len() && 0 <= m < columns.len() && columns[m] == names[k]
                ==> settled(names, columns, values).1[k] == values[m],
{
    let n = columns.len() as int;
    let (cols, vals) = settled(names, columns, values);
    settled_rearranges(names, columns, values);
    lemma_swap_from(names, cols, 0);
    assert forall|i: int| 0 <= i < cols.len() implies exists|m: int|
        0 <= m < columns.len() && columns[m] == #[trigger] cols[i] by {
        assert(has_pair(columns, values, cols[i], vals[i]));
        let m = choose|m: int| pair_at(columns, values, m, cols[i], vals[i]);
        assert(0 <= m < columns.len() && columns[m] == cols[i]);
    }
    assert forall|k: int| 0 <= k < n implies cols[k] == names[k] by {
        lemma_in_place(names, columns, cols, k);
    }
    assert(cols =~= names.take(n));
    assert forall|k: int, m: int|
        0 <= k < n && 0 <= m < n && columns[m] == names[k] implies vals[k] == values[m] by {
        assert(has_pair(columns, values, cols[k], vals[k]));
        let m1 = choose|m1: int| pair_at(columns, values, m1, cols[k], vals[k]);
        assert(columns[m1] == columns[m]);
    }
}

/// Once no swap is left, and every column is one of the model's first
/// features, every column up to `k` is in place.
proof fn lemma_in_place(names: Seq<Seq<char>>, columns: Seq<Seq<char>>, cols: Seq<Seq<char>>, k: int)
    requires
        0 <= k < cols.len() == columns.len(),
        cols.no_duplicates(),
        swap_from(names, cols, 0) is None,
        forall|i: int|
            0 <= i < columns.len() ==> exists|p: int|
                0 <= p < columns.len() && names[p] == #[trigger] columns[i],
        forall|i: int|
            0 <= i < cols.len() ==> exists|m: int|
                0 <= m < columns.len() && columns[m] == #[trigger] cols[i],
    ensures
        cols[k] == names[k],
    decreases k,
{
    let n = cols.len() as int;
    lemma_swap_from(names, cols, 0);
    if cols[k] != names[k] {
        let m = choose|m: int| 0 <= m < n && columns[m] == cols[k];
        let p = choose|p: int| 0 <= p < n && names[p] == columns[m];
        lemma_first_at(names, cols[k], k, n);
        assert(first_at(names, cols[k], k, n) == n);
        if p < k {
            lemma_in_place(names, columns, cols, p);
            assert(cols[p] == cols[k]);
        }
    }
}

/// Why a batch of rows cannot be fed to the model.
#[derive(Debug, Clone, Copy, PartialEq, Eq, Structural)]
pub enum InputError {
    /// There is no row.
    NoRows,
    /// The first row does not have `required` values.
    WrongWidth { required: i32 },
}

/// The layout of a model's input.
#[derive(Debug, Clone)]
pub struct LightgbmModel {
    /// The model's features, in the order of its columns.
    pub feature_names: Vec<String>,
    pub num_features: i32,
}

/// Exchanges the names at `i` and `j`.
fn swap_names(names: &mut Vec<String>, i: usize, j: usize)
    requires
        i < old(names).len(),
        j < old(names).len(),
    ensures
        final(names).deep_view() == swapped(old(names).deep_view(), i as int, j as int),
{
    let a = names[i].clone();
    let b = names[j].clone();
    names.set(i, b);
    names.set(j, a);
    assert(names.deep_view() =~= swapped(old(names).deep_view(), i as int, j as int));
}

/// Exchanges the values at `i` and `j`.
fn swap_values<T: Copy>(values: &mut Vec<T>, i: usize, j: usize)
    requires
        i < old(values).len(),
        j < old(values).len(),
    ensures
        final(values)@ == swapped(old(values)@, i as int, j as int),
{
    let a = values[i];
    let b = values[j];
    values.set(i, b);
    values.set(j, a);
}

/// Copies a row of values.
fn copy_values<T: Copy>(row: &Vec<T>) -> (copy: Vec<T>)
    ensures
        copy@ == row@,
{
    let mut copy: Vec<T> = Vec::new();
    let mut i: usize = 0;
    while i < row.len()
        invariant
            i <= row.len(),
            copy@ == row@.take(i as int),
        decreases row.len() - i,
    {
        copy.push(row[i]);
        assert(copy@ =~= row@.take(i + 1));
        i += 1;
    }
    assert(row@.take(row@.len() as int) =~= row@);
    copy
}

impl LightgbmModel {
    /// A model with these features, in this order.
    pub fn new(feature_names: Vec<String>, num_features: i32) -> (model: LightgbmModel)
        ensures
            model.feature_names == feature_names,
            model.num_features == num_features,
    {
        LightgbmModel { feature_names, num_features }
    }

    /// Whether a batch of rows can be fed to the model: there is a row,
    /// and the first row has as many values as the model has features.
    pub fn validate<T>(&self, numeric_features: &Vec<Vec<T>>) -> (checked: Result<(), InputError>)
        ensures
            checked == if numeric_features@.len() == 0 {
                Err::<(), InputError>(InputError::NoRows)
            } else if numeric_features@[0]@.len() != self.num_features {
                Err::<(), InputError>(InputError::WrongWidth { required: self.num_features })
            } else {
                Ok::<(), InputError>(())
            },
    {
        if numeric_features.len() == 0 {
            return Err(InputError::NoRows);
        }
        let width = numeric_features[0].len();
        if self.num_features < 0 || width != self.num_features as usize {
            return Err(InputError::WrongWidth { required: self.num_features });
        }
        Ok(())
    }

    /// Whether `columns` can be reordered: no name stands twice, and
    /// there are no more columns than the model has features.
    pub fn can_reorder(&self, columns: &Vec<String>) -> (ok: bool)
        ensures
            ok == can_align(self.feature_names.deep_view(), columns.deep_view()),
    {
        let ghost cols = columns.deep_view();
        if columns.len() > self.feature_names.len() {
            return false;
        }
        let mut j: usize = 0;
        while j < columns.len()
            invariant
                j <= columns.len(),
                cols == columns.deep_view(),
                forall|a: int, b: int| 0 <= a < b < j ==> cols[a] != cols[b],
            decreases columns.len() - j,
        {
            let mut i: usize = 0;
            while i < j
                invariant
                    i <= j < columns.len(),
                    cols == columns.deep_view(),
                    forall|a: int| 0 <= a < i ==> cols[a] != cols[j as int],
                decreases j - i,
            {
                if columns[i] == columns[j] {
                    assert(cols[i as int] == cols[j as int]);
                    return false;
                }
                i += 1;
            }
            j += 1;
        }
        assert forall|a: int, b: int| 0 <= a < cols.len() && 0 <= b < cols.len() && a
            != b implies cols[a] != cols[b] by {
            if a < b {
                assert(cols[a] != cols[b]);
            } else {
                assert(cols[b] != cols[a]);
            }
        }
        true
    }

    /// The next swap that brings `columns` closer to the model's order:
    /// the first column that is out of place and that the model has at or
    /// after its place, and the first such place.
    pub fn find_swap(&self, columns: &Vec<String>) -> (swap: Option<(usize, usize)>)
        requires
            columns@.len() <= self.feature_names@.len(),
        ensures
            match swap {
                Some((i, j)) => swap_from(self.feature_names.deep_view(), columns.deep_view(), 0)
                    == Some((i as int, j as int)),
                None => swap_from(self.feature_names.deep_view(), columns.deep_view(), 0) is None,
            },
    {
        let ghost names = self.feature_names.deep_view();
        let ghost cols = columns.deep_view();
        let num = columns.len();
        let mut i: usize = 0;
        while i < num
            invariant
                i <= num == columns@.len() <= self.feature_names@.len(),
                names == self.feature_names.deep_view(),
                cols == columns.deep_view(),
                swap_from(names, cols, 0) == swap_from(names, cols, i as int),
            decreases num - i,
        {
            let col = &columns[i];
            assert(cols[i as int] == col@ && names[i as int] == self.feature_names@[i as int]@);
            if *col != self.feature_names[i] {
                let mut j: usize = i;
                while j < num
                    invariant
                        i <= j <= num == columns@.len() <= self.feature_names@.len(),
                        names == self.feature_names.deep_view(),
                        cols == columns.deep_view(),
                        col@ == cols[i as int],
                        cols[i as int] != names[i as int],
                        swap_from(names, cols, 0) == swap_from(names, cols, i as int),
                        first_at(names, col@, i as int, num as int) == first_at(
                            names,
                            col@,
                            j as int,
                            num as int,
                        ),
                    decreases num - j,
                {
                    assert(names[j as int] == self.feature_names@[j as int]@);
                    if *col == self.feature_names[j] {
                        return Some((i, j));
                    }
                    j += 1;
                }
            }
            i += 1;
        }
        None
    }

    /// Brings the values of one row into the model's column order.
    /// `columns` names the column of each value. As long as
    /// [`LightgbmModel::find_swap`] finds a swap, it is made on the
    /// columns and on the values alike; the values are returned once none
    /// is left.
    pub fn reorder<T: Copy>(&self, columns: Vec<String>, numeric_features: Vec<T>) -> (ordered: Vec<T>)
        requires
            can_align(self.feature_names.deep_view(), columns.deep_view()),
            numeric_features@.len() == columns@.len(),
        ensures
            ordered@ == settled(
                self.feature_names.deep_view(),
                columns.deep_view(),
                numeric_features@,
            ).1,
    {
        let ghost names = self.feature_names.deep_view();
        let mut names_left = columns;
        let mut values = numeric_features;
        loop
            invariant
                names == self.feature_names.deep_view(),
                can_align(names, names_left.deep_view()),
                values@.len() == names_left@.len(),
                settled(names, names_left.deep_view(), values@) == settled(
                    names,
                    columns.deep_view(),
                    numeric_features@,
                ),
            decreases misplaced(names, names_left.deep_view()).len(),
        {
            match self.find_swap(&names_left) {
                None => {
                    return values;
                },
                Some((i, j)) => {
                    proof {
                        lemma_swap_from(names, names_left.deep_view(), 0);
                        lemma_swap_progress(names, names_left.deep_view());
                    }
                    swap_names(&mut names_left, i, j);
                    swap_values(&mut values, i, j);
                },
            }
        }
    }

    /// Brings every row of `numeric_features` into the model's column
    /// order, as [`LightgbmModel::reorder`] does for one row.
    pub fn reorder_all<T: Copy>(&self, columns: Vec<String>, numeric_features: Vec<Vec<T>>) -> (ordered: Vec<Vec<T>>)
        requires
            can_align(self.feature_names.deep_view(), columns.deep_view()),
            forall|r: int|
                0 <= r < numeric_features@.len() ==> (#[trigger] numeric_features@[r])@.len()
                    == columns@.len(),
        ensures
            ordered@.len() == numeric_features@.len(),
            forall|r: int|
                0 <= r < ordered@.len() ==> (#[trigger] ordered@[r])@ == settled(
                    self.feature_names.deep_view(),
                    columns.deep_view(),
                    numeric_features@[r]@,
                ).1,
    {
        let mut numeric_features = numeric_features;
        let ghost rows = numeric_features@;
        let num_rows = numeric_features.len();
        let mut n: usize = 0;
        while n < num_rows
            invariant
                n <= num_rows == rows.len(),
                numeric_features@.len() == rows.len(),
                can_align(self.feature_names.deep_view(), columns.deep_view()),
                forall|r: int| 0 <= r < rows.len() ==> (#[trigger] rows[r])@.len() == columns@.len(),
                forall|r: int| n <= r < rows.len() ==> numeric_features@[r] == rows[r],
                forall|r: int|
                    0 <= r < n ==> (#[trigger] numeric_features@[r])@ == settled(
                        self.feature_names.deep_view(),
                        columns.deep_view(),
                        rows[r]@,
                    ).1,
            decreases num_rows - n,
        {
            let names = copy_names(&columns);
            assert(names.deep_view() =~= columns.deep_view());
            assert(numeric_features@[n as int] == rows[n as int]);
            let row = copy_values(&numeric_features[n]);
            let ordered = self.reorder(names, row);
            numeric_features.set(n, ordered);
            n += 1;
        }
        numeric_features
    }

    /// Lays the model's output out by row. Where the first list holds one
    /// value for each of the `rows` rows fed in, each value becomes a row
    /// of its own; otherwise the lists are handed on as they are.
    pub fn arrange_predictions<T: Copy>(predictions: &Vec<Vec<T>>, rows: usize) -> (arranged: Vec<Vec<T>>)
        requires
            predictions@.len() > 0,
        ensures
            predictions@[0]@.len() == rows ==> {
                &&& arranged@.len() == rows
                &&& forall|r: int|
                    0 <= r < rows ==> (#[trigger] arranged@[r])@ == seq![predictions@[0]@[r]]
            },
            predictions@[0]@.len() != rows ==> {
                &&& arranged@.len() == predictions@.len()
                &&& forall|r: int|
                    0 <= r < arranged@.len() ==> (#[trigger] arranged@[r])@ == predictions@[r]@
            },
    {
        let mut arranged: Vec<Vec<T>> = Vec::new();
        if predictions[0].len() == rows {
            let first = &predictions[0];
            let mut r: usize = 0;
            while r < rows
                invariant
                    r <= rows == first@.len(),
                    arranged@.len() == r,
                    forall|k: int| 0 <= k < r ==> (#[trigger] arranged@[k])@ == seq![first@[k]],
                decreases rows - r,
            {
                let mut single: Vec<T> = Vec::new();
                single.push(first[r]);
                assert(single@ =~= seq![first@[r as int]]);
                arranged.push(single);
                r += 1;
            }
        } else {
            let mut r: usize = 0;
            while r < predictions.len()
                invariant
                    r <= predictions.len(),
                    arranged@.len() == r,
                    forall|k: int| 0 <= k < r ==> (#[trigger] arranged@[k])@ == predictions@[k]@,
                decreases predictions.len() - r,
            {
                arranged.push(copy_values(&predictions[r]));
                r += 1;
            }
        }
        arranged
    }
}

} // verus!
