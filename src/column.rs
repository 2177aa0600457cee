use crate::cell::{Cell, CellModel};
use crate::datatypes::{
    checked_scalar, checked_scalar_exec, is_integer_kind, is_unsigned_kind, lemma_same_as_equivalence, trunc_div, AnyType, DataType,
};
use vstd::prelude::*;
use vstd::std_specs::convert::FromSpec;

verus! {

/// Whether a column keeps a trailing rolling mean, and over how many cells.
#[derive(Clone, Copy, Debug)]
pub struct RollingMean {
    pub should_calculate: bool,
    pub mean_over: usize,
}

impl RollingMean {
    /// A rolling-mean setting; asking for one without a window turns it off.
    pub fn new(should_calculate: bool, mean_over_option: Option<usize>) -> (r: RollingMean)
        ensures
            r.should_calculate == (should_calculate && mean_over_option is Some),
            r.mean_over == (match mean_over_option {
                Some(m) => m,
                None => 0,
            }),
    {
        let mut mean_over: usize = 0;
        let mut should = should_calculate;
        if let Some(mean) = mean_over_option {
            mean_over = mean;
        } else if should {
            should = false;
        }
        RollingMean { should_calculate: should, mean_over }
    }
}

/// Whether a column feeds its period-over-period differences into another column, by name.
#[derive(Clone, Copy, Debug)]
pub struct Returns {
    pub should_calculate: bool,
    pub column_name: Option<&'static str>,
}

impl Returns {
    pub fn new(should_calculate: bool, column_name: Option<&'static str>) -> (r: Returns)
        ensures
            r.should_calculate == should_calculate,
            r.column_name == column_name,
    {
        Returns { should_calculate, column_name }
    }
}

/// The values held by a sequence of cells.
pub open spec fn values_of(cells: Seq<Cell>) -> Seq<AnyType> {
    cells.map_values(|c: Cell| c@.value)
}

/// The sum of the non-null values of `s`, added in order starting from null.
pub open spec fn non_null_sum(s: Seq<AnyType>) -> AnyType
    decreases s.len(),
{
    if s.len() == 0 {
        AnyType::Null
    } else if s.last() is Null {
        non_null_sum(s.drop_last())
    } else {
        non_null_sum(s.drop_last()).plus(s.last())
    }
}

/// How many values of `s` are not null.
pub open spec fn non_null_count(s: Seq<AnyType>) -> nat
    decreases s.len(),
{
    if s.len() == 0 {
        0
    } else if s.last() is Null {
        non_null_count(s.drop_last())
    } else {
        non_null_count(s.drop_last()) + 1
    }
}

/// The rolling mean over a window of `w` values ending at position `i`: absent before a
/// full window is there, else the sum of the window's non-null values divided by their count.
pub open spec fn rolling_mean_at(values: Seq<AnyType>, w: int, i: int) -> Option<AnyType> {
    if i < w - 1 {
        None
    } else {
        let window = values.subrange(i - w + 1, i + 1);
        Some(non_null_sum(window).over(AnyType::USize(non_null_count(window) as usize)))
    }
}

/// The rolling mean a cell at position `i` carries under the setting `config`.
pub open spec fn expected_mean(config: RollingMean, values: Seq<AnyType>, i: int) -> Option<
    AnyType,
> {
    if config.should_calculate {
        rolling_mean_at(values, config.mean_over as int, i)
    } else {
        None
    }
}

/// Whether `ps` lists, in increasing order, exactly the positions of `values` that hold `v`.
pub open spec fn is_value_group(values: Seq<AnyType>, v: AnyType, ps: Seq<usize>) -> bool {
    &&& forall|a: int, b: int| 0 <= a < b < ps.len() ==> ps[a] < ps[b]
    &&& forall|a: int|
        0 <= a < ps.len() ==> (#[trigger] ps[a]) < values.len() && values[ps[a] as int].same_as(v)
    &&& forall|k: int| 0 <= k < values.len() && values[k].same_as(v) ==> ps.contains(k as usize)
}

/// The positions of the cells holding one value.
#[derive(Debug)]
struct Group {
    value: AnyType,
    positions: Vec<usize>,
}

spec fn positions_hold(ps: Seq<usize>, values: Seq<AnyType>, v: AnyType) -> bool {
    &&& forall|a: int, b: int| 0 <= a < b < ps.len() ==> ps[a] < ps[b]
    &&& forall|a: int|
        0 <= a < ps.len() ==> (#[trigger] ps[a]) < values.len() && values[ps[a] as int].same_as(v)
}

/// Whether some group lists position `k`.
spec fn covered(g: Seq<Group>, k: int) -> bool {
    exists|i: int| 0 <= i < g.len() && (#[trigger] g[i].positions@).contains(k as usize)
}

/// One column of the table: its cells in row order, an index from value to the positions
/// holding it, and the settings for rolling means and returns.
#[derive(Debug)]
pub struct Column {
    cells: Vec<Cell>,
    grouped_values: Vec<Group>,
    pub name: &'static str,
    pub rolling_mean: RollingMean,
    pub returns: Returns,
}


/// The rolling mean over `w` cells ending at position `i`, computed from the cells.
fn window_mean(cells: &Vec<Cell>, w: usize, i: usize) -> (r: Option<AnyType>)
    requires
        i < cells@.len(),
    ensures
        r == rolling_mean_at(values_of(cells@), w as int, i as int),
{
    let n = cells.len();
    if i + 1 < w {
        return None;
    }
    let ghost values = values_of(cells@);
    let start = i + 1 - w;
    let mut sum = AnyType::Null;
    let mut count: usize = 0;
    let mut j = start;
    while j <= i
        invariant
            values == values_of(cells@),
            i < n == cells@.len(),
            start <= j <= i + 1,
            sum == non_null_sum(values.subrange(start as int, j as int)),
            count as nat == non_null_count(values.subrange(start as int, j as int)),
            count <= j - start,
        decreases i + 1 - j,
    {
        let v = *cells[j].get_value();
        proof {
            let s = values.subrange(start as int, j as int + 1);
            assert(s.drop_last() =~= values.subrange(start as int, j as int));
            assert(s.last() == v);
        }
        if !v.is_null() {
            sum = sum + v;
            count = count + 1;
        }
        j = j + 1;
    }
    Some(sum / AnyType::USize(count))
}

proof fn lemma_mean_prefix(a: Seq<AnyType>, b: Seq<AnyType>, config: RollingMean, i: int)
    requires
        0 <= i < a.len(),
        i < b.len(),
        forall|j: int| 0 <= j <= i ==> a[j] == b[j],
    ensures
        expected_mean(config, a, i) == expected_mean(config, b, i),
{
    let w = config.mean_over as int;
    if config.should_calculate && i >= w - 1 {
        assert(a.subrange(i - w + 1, i + 1) =~= b.subrange(i - w + 1, i + 1));
    }
}

/// The difference of the value at `i` to the one before it; null at the first position.
pub open spec fn difference_to_last(values: Seq<AnyType>, i: int) -> AnyType {
    if i == 0 {
        AnyType::Null
    } else {
        values[i].minus(values[i - 1])
    }
}

/// The sum of the values of `values` that are of kind `k`.
pub open spec fn kind_total(values: Seq<AnyType>, k: DataType) -> int
    decreases values.len(),
{
    if values.len() == 0 {
        0
    } else if values.last().kind() == k {
        kind_total(values.drop_last(), k) + values.last().int_value()
    } else {
        kind_total(values.drop_last(), k)
    }
}

/// How many values of `values` are of kind `k`.
pub open spec fn kind_count(values: Seq<AnyType>, k: DataType) -> nat
    decreases values.len(),
{
    if values.len() == 0 {
        0
    } else if values.last().kind() == k {
        kind_count(values.drop_last(), k) + 1
    } else {
        kind_count(values.drop_last(), k)
    }
}

/// The mean of a column: absent when it is empty or its first value is not an integer;
/// else the mean, rounded toward zero, of the values of the first value's kind, in that kind.
pub open spec fn column_mean(values: Seq<AnyType>) -> Option<AnyType> {
    if values.len() == 0 || !values[0].is_integer() {
        None
    } else {
        let k = values[0].kind();
        Some(checked_scalar(k, trunc_div(kind_total(values, k), kind_count(values, k) as int)))
    }
}

/// The timestamp and converted value of every cell whose value converts to `T`, in row
/// order.
pub open spec fn timed_values<T>(cells: Seq<Cell>) -> Seq<(i64, T)> where Option<T>: From<AnyType>
    decreases cells.len(),
{
    if cells.len() == 0 {
        Seq::empty()
    } else {
        let rest = timed_values::<T>(cells.drop_last());
        let c = cells.last()@;
        match <Option<T> as FromSpec<AnyType>>::from_spec(c.value) {
            Some(v) => rest.push((c.timestamp, v)),
            None => rest,
        }
    }
}

/// The timestamp and rolling mean of every cell that carries a rolling mean, in row order.
pub open spec fn timed_rolling_means(cells: Seq<Cell>) -> Seq<(i64, AnyType)>
    decreases cells.len(),
{
    if cells.len() == 0 {
        Seq::empty()
    } else {
        let rest = timed_rolling_means(cells.drop_last());
        let c = cells.last()@;
        match c.rolling_mean {
            Some(m) => rest.push((c.timestamp, m)),
            None => rest,
        }
    }
}

/// Where position `q` moves when position `p` is removed.
pub open spec fn shifted(q: int, p: int) -> int {
    if q > p {
        q - 1
    } else {
        q
    }
}

/// Where position `x` was before position `p` was removed.
pub open spec fn unshifted(x: int, p: int) -> int {
    if x >= p {
        x + 1
    } else {
        x
    }
}

/// `ps` without `p`, with the positions after `p` moved down by one.
fn shift_out(ps: &Vec<usize>, p: usize) -> (r: Vec<usize>)
    requires
        forall|a: int, b: int| 0 <= a < b < ps@.len() ==> ps@[a] < ps@[b],
    ensures
        forall|a: int, b: int| 0 <= a < b < r@.len() ==> r@[a] < r@[b],
        forall|a: int|
            0 <= a < r@.len() ==> unshifted(#[trigger] r@[a] as int, p as int) != p && unshifted(r@[a] as int, p as int) <= usize::MAX && ps@.contains(
                unshifted(r@[a] as int, p as int) as usize,
            ),
        forall|b: int|
            0 <= b < ps@.len() && ps@[b] != p ==> r@.contains(
                shifted(#[trigger] ps@[b] as int, p as int) as usize,
            ),
{
    let mut r: Vec<usize> = Vec::new();
    let ghost mut src: Seq<int> = Seq::empty();
    let mut i: usize = 0;
    while i < ps.len()
        invariant
            i <= ps@.len(),
            forall|a: int, b: int| 0 <= a < b < ps@.len() ==> ps@[a] < ps@[b],
            src.len() == r@.len(),
            forall|a: int, b: int| 0 <= a < b < r@.len() ==> r@[a] < r@[b],
            forall|a: int| 0 <= a < src.len() ==> 0 <= #[trigger] src[a] < i && ps@[src[a]] != p
                && r@[a] as int == shifted(ps@[src[a]] as int, p as int),
            forall|a: int, b: int| 0 <= a < b < src.len() ==> src[a] < src[b],
            forall|b: int|
                0 <= b < i && ps@[b] != p ==> r@.contains(
                    shifted(#[trigger] ps@[b] as int, p as int) as usize,
                ),
        decreases ps@.len() - i,
    {
        let q = ps[i];
        if q != p {
            let x = if q > p {
                q - 1
            } else {
                q
            };
            proof {
                assert forall|a: int| 0 <= a < src.len() implies r@[a] < x by {
                    assert(ps@[src[a]] < q);
                }
            }
            let ghost old_r = r@;
            r.push(x);
            proof {
                src = src.push(i as int);
                assert(r@[r@.len() - 1] == x);
                assert forall|b: int|
                    0 <= b < i + 1 && ps@[b] != p implies r@.contains(
                    shifted(#[trigger] ps@[b] as int, p as int) as usize,
                ) by {
                    if b < i {
                        assert(old_r.contains(shifted(ps@[b] as int, p as int) as usize));
                        let a = choose|a: int| 0 <= a < old_r.len() && old_r[a] == shifted(ps@[b] as int, p as int) as usize;
                        assert(r@[a] == old_r[a]);
                    } else {
                        assert(r@[r@.len() - 1] == shifted(ps@[b] as int, p as int) as usize);
                    }
                }
            }
        }
        i = i + 1;
    }
    proof {
        assert forall|a: int|
            0 <= a < r@.len() implies unshifted(#[trigger] r@[a] as int, p as int) != p && unshifted(r@[a] as int, p as int) <= usize::MAX && ps@.contains(
            unshifted(r@[a] as int, p as int) as usize,
        ) by {
            assert(ps@[src[a]] as int == unshifted(r@[a] as int, p as int));
        }
    }
    r
}

proof fn lemma_first_of_kind_counted(values: Seq<AnyType>, k: DataType)
    requires
        values.len() > 0,
        values[0].kind() == k,
    ensures
        kind_count(values, k) > 0,
    decreases values.len(),
{
    if values.len() > 1 {
        lemma_first_of_kind_counted(values.drop_last(), k);
    }
}

proof fn lemma_remove_index(s: Seq<AnyType>, p: int)
    requires
        0 <= p < s.len(),
    ensures
        forall|x: int| 0 <= x < s.len() - 1 ==> #[trigger] s.remove(p)[x] == s[unshifted(x, p)],
{
    assert forall|x: int| 0 <= x < s.len() - 1 implies #[trigger] s.remove(p)[x] == s[unshifted(x, p)] by {
    }
}

proof fn lemma_mean_shift(old_values: Seq<AnyType>, values: Seq<AnyType>, config: RollingMean, k: int, p: int)
    requires
        0 <= p <= k,
        k + 1 < old_values.len(),
        values == old_values.remove(p),
        config.should_calculate ==> k >= p + config.mean_over - 1,
    ensures
        expected_mean(config, values, k) == expected_mean(config, old_values, k + 1),
{
    let w = config.mean_over as int;
    if config.should_calculate {
        assert(values.subrange(k - w + 1, k + 1) =~= old_values.subrange(k - w + 2, k + 2));
    }
}

impl Column {
    /// The cells, in row order.
    pub closed spec fn cells_view(&self) -> Seq<Cell> {
        self.cells@
    }

    /// The values of the cells, in row order.
    pub open spec fn values(&self) -> Seq<AnyType> {
        values_of(self.cells_view())
    }

    pub closed spec fn name_view(&self) -> &'static str {
        self.name
    }

    pub closed spec fn rolling_mean_config(&self) -> RollingMean {
        self.rolling_mean
    }

    pub closed spec fn returns_config(&self) -> Returns {
        self.returns
    }

    /// The positions that the value index holds for `v`.
    pub closed spec fn group_positions(&self, v: AnyType) -> Seq<usize> {
        let g = self.grouped_values@;
        if exists|i: int| 0 <= i < g.len() && g[i].value.same_as(v) {
            g[choose|i: int| 0 <= i < g.len() && g[i].value.same_as(v)].positions@
        } else {
            Seq::empty()
        }
    }

    /// The value index, as stored: one group per value, each listing positions that hold
    /// its value in increasing order, and every position listed somewhere.
    pub closed spec fn groups_wf(&self) -> bool {
        let g = self.grouped_values@;
        let values = values_of(self.cells@);
        &&& values.len() <= usize::MAX
        &&& forall|i: int, j: int|
            0 <= i < j < g.len() ==> !(#[trigger] g[i].value).same_as(#[trigger] g[j].value)
        &&& forall|i: int| 0 <= i < g.len() ==> positions_hold(#[trigger] g[i].positions@, values, g[i].value)
        &&& forall|k: int| 0 <= k < values.len() ==> #[trigger] covered(g, k)
    }

    /// Every cell carries the rolling mean its setting and the values give it.
    pub open spec fn means_hold(&self) -> bool {
        forall|i: int|
            0 <= i < self.cells_view().len() ==> (#[trigger] self.cells_view()[i])@.rolling_mean
                == expected_mean(self.rolling_mean_config(), self.values(), i)
    }

    /// The value index is a partition of the cells by value.
    pub open spec fn partition_holds(&self) -> bool {
        forall|v: AnyType| is_value_group(self.values(), v, #[trigger] self.group_positions(v))
    }

    pub open spec fn wf(&self) -> bool {
        &&& self.groups_wf()
        &&& self.partition_holds()
        &&& self.means_hold()
    }

    proof fn lemma_partition(&self)
        requires
            self.groups_wf(),
        ensures
            self.partition_holds(),
    {
        let g = self.grouped_values@;
        let values = values_of(self.cells@);
        assert forall|v: AnyType| is_value_group(values, v, #[trigger] self.group_positions(v)) by {
            let ps = self.group_positions(v);
            if exists|i: int| 0 <= i < g.len() && g[i].value.same_as(v) {
                let i0 = choose|i: int| 0 <= i < g.len() && g[i].value.same_as(v);
                assert(positions_hold(g[i0].positions@, values, g[i0].value));
                assert(ps == g[i0].positions@);
                assert forall|a: int| 0 <= a < ps.len() implies (#[trigger] ps[a]) < values.len() && values[ps[a] as int].same_as(v) by {
                    lemma_same_as_equivalence(values[ps[a] as int], g[i0].value, v);
                }
                assert forall|k: int| 0 <= k < values.len() && values[k].same_as(v) implies ps.contains(
                    k as usize,
                ) by {
                    assert(covered(g, k));
                    let i1 = choose|i: int|
                        0 <= i < g.len() && (#[trigger] g[i].positions@).contains(k as usize);
                    assert(positions_hold(g[i1].positions@, values, g[i1].value));
                    let a = choose|a: int|
                        0 <= a < g[i1].positions@.len() && g[i1].positions@[a] == k as usize;
                    assert(values[g[i1].positions@[a] as int].same_as(g[i1].value));
                    lemma_same_as_equivalence(values[k], g[i1].value, v);
                    lemma_same_as_equivalence(g[i1].value, values[k], v);
                    lemma_same_as_equivalence(g[i0].value, v, g[i1].value);
                    lemma_same_as_equivalence(g[i1].value, v, g[i0].value);
                    if i0 < i1 {
                        assert(!g[i0].value.same_as(g[i1].value));
                    } else if i1 < i0 {
                        assert(!g[i1].value.same_as(g[i0].value));
                    }
                }
            } else {
                assert(ps == Seq::<usize>::empty());
                assert forall|k: int| 0 <= k < values.len() && values[k].same_as(v) implies ps.contains(
                    k as usize,
                ) by {
                    assert(covered(g, k));
                    let i1 = choose|i: int|
                        0 <= i < g.len() && (#[trigger] g[i].positions@).contains(k as usize);
                    assert(positions_hold(g[i1].positions@, values, g[i1].value));
                    let a = choose|a: int|
                        0 <= a < g[i1].positions@.len() && g[i1].positions@[a] == k as usize;
                    assert(values[g[i1].positions@[a] as int].same_as(g[i1].value));
                    lemma_same_as_equivalence(values[k], g[i1].value, v);
                    lemma_same_as_equivalence(g[i1].value, values[k], v);
                    assert(g[i1].value.same_as(v));
                }
            }
        }
    }

    /// An empty column named `name` with the given settings.
    pub fn new(name: &'static str, rolling_mean: RollingMean, returns_setting: Returns) -> (r: Column)
        ensures
            r.wf(),
            r.cells_view() == Seq::<Cell>::empty(),
            r.name_view() == name,
            r.rolling_mean_config() == rolling_mean,
            r.returns_config() == returns_setting,
    {
        let r = Column {
            cells: Vec::new(),
            grouped_values: Vec::new(),
            name,
            rolling_mean,
            returns: returns_setting,
        };
        proof {
            r.lemma_partition();
        }
        r
    }

    /// The index of the group for `v`, if there is one.
    fn find_group(&self, v: &AnyType) -> (r: Option<usize>)
        ensures
            r is Some ==> r->0 < self.grouped_values@.len() && self.grouped_values@[r->0 as int].value.same_as(*v),
            r is None ==> forall|j: int|
                0 <= j < self.grouped_values@.len() ==> !(#[trigger] self.grouped_values@[j]).value.same_as(*v),
    {
        let mut i: usize = 0;
        while i < self.grouped_values.len()
            invariant
                i <= self.grouped_values@.len(),
                forall|j: int| 0 <= j < i ==> !(#[trigger] self.grouped_values@[j]).value.same_as(*v),
            decreases self.grouped_values@.len() - i,
        {
            if self.grouped_values[i].value == *v {
                return Some(i);
            }
            i = i + 1;
        }
        None
    }

    /// Appends `cell` as the last cell of the column, files it under its value, and gives it
    /// the rolling mean that ends at its position (none where rolling means are off).
    pub fn add_cell(&mut self, cell: Cell)
        requires
            old(self).wf(),
        ensures
            final(self).wf(),
            final(self).cells_view().drop_last() == old(self).cells_view(),
            final(self).cells_view().len() == old(self).cells_view().len() + 1,
            final(self).cells_view().last()@ == (CellModel {
                rolling_mean: expected_mean(
                    old(self).rolling_mean_config(),
                    final(self).values(),
                    old(self).cells_view().len() as int,
                ),
                ..cell@
            }),
            final(self).name_view() == old(self).name_view(),
            final(self).rolling_mean_config() == old(self).rolling_mean_config(),
            final(self).returns_config() == old(self).returns_config(),
    {
        let ghost old_values = values_of(self.cells@);
        let ghost old_groups = self.grouped_values@;
        let ghost old_cells = self.cells@;
        let n = self.cells.len();
        let v = *cell.get_value();
        let found = self.find_group(&v);
        let mut c = cell;
        if self.rolling_mean.should_calculate {
            self.cells.push(c);
            let m = window_mean(&self.cells, self.rolling_mean.mean_over, n);
            let ghost pushed = values_of(self.cells@);
            c.set_rolling_mean(m);
            self.cells.set(n, c);
            assert(values_of(self.cells@) =~= pushed);
        } else {
            c.set_rolling_mean(None);
            self.cells.push(c);
        }
        let ghost values = values_of(self.cells@);
        assert(values.subrange(0, n as int) =~= old_values);
        assert(values[n as int] == v);
        let _ = self.cells.len();
        match found {
            Some(g) => {
                let mut group = self.grouped_values.remove(g);
                group.positions.push(n);
                self.grouped_values.insert(g, group);
            },
            None => {
                let mut positions: Vec<usize> = Vec::new();
                positions.push(n);
                self.grouped_values.push(Group { value: v, positions });
            },
        }
        proof {
            let g = self.grouped_values@;
            assert(g.len() >= old_groups.len());
            assert forall|i: int| 0 <= i < old_groups.len() implies g[i].value == old_groups[i].value
                && g[i].positions@.len() >= old_groups[i].positions@.len() && g[i].positions@.subrange(
                0,
                old_groups[i].positions@.len() as int,
            ) == old_groups[i].positions@ by {
                if found is Some && i == found->0 {
                    assert(g[i].positions@.subrange(0, old_groups[i].positions@.len() as int)
                        =~= old_groups[i].positions@);
                } else {
                    assert(g[i].positions@ =~= old_groups[i].positions@);
                }
            }
            assert forall|i: int, j: int|
                0 <= i < j < g.len() implies !(#[trigger] g[i].value).same_as(#[trigger] g[j].value) by {
                if j == old_groups.len() {
                    lemma_same_as_equivalence(g[i].value, v, v);
                }
            }
            assert forall|i: int| 0 <= i < g.len() implies positions_hold(#[trigger] g[i].positions@, values, g[i].value) by {
                let ps = g[i].positions@;
                if i < old_groups.len() {
                    let ops = old_groups[i].positions@;
                    assert(positions_hold(ops, old_values, old_groups[i].value));
                    assert forall|a: int| 0 <= a < ps.len() implies (#[trigger] ps[a]) < values.len()
                        && values[ps[a] as int].same_as(g[i].value) by {
                        if a < ops.len() {
                            assert(ps[a] == ops[a]);
                            assert(values[ps[a] as int] == old_values[ps[a] as int]);
                        } else {
                            lemma_same_as_equivalence(g[i].value, v, v);
                        }
                    }
                    assert forall|a: int, b: int| 0 <= a < b < ps.len() implies ps[a] < ps[b] by {
                        if b < ops.len() {
                            assert(ps[a] == ops[a] && ps[b] == ops[b]);
                        } else {
                            assert(ps[a] == ops[a]);
                        }
                    }
                } else {
                    lemma_same_as_equivalence(v, v, v);
                }
            }
            assert forall|k: int| 0 <= k < values.len() implies #[trigger] covered(g, k) by {
                if k < n {
                    assert(covered(old_groups, k));
                    let i1 = choose|i: int|
                        0 <= i < old_groups.len() && (#[trigger] old_groups[i].positions@).contains(k as usize);
                    let a = choose|a: int| 0 <= a < old_groups[i1].positions@.len()
                        && old_groups[i1].positions@[a] == k as usize;
                    assert(g[i1].positions@[a] == k as usize);
                } else {
                    let i1 = if found is Some { found->0 as int } else { old_groups.len() as int };
                    assert(g[i1].positions@.last() == n);
                    assert(g[i1].positions@.contains(k as usize));
                }
            }
            assert forall|i: int| 0 <= i < self.cells@.len() implies (#[trigger] self.cells@[i])@.rolling_mean
                == expected_mean(self.rolling_mean, values, i) by {
                if i < n {
                    assert(self.cells@[i] == old_cells[i]);
                    lemma_mean_prefix(values, old_values, self.rolling_mean, i);
                }
            }
            self.lemma_partition();
        }
    }

    /// Removes the cell at the position `cell`'s row gives, drops it from the value index,
    /// moves every later cell up one row, and recomputes the rolling means whose window
    /// covered the removed position.
    pub fn drop_cell(&mut self, cell: Cell)
        requires
            old(self).wf(),
            cell@.row < old(self).cells_view().len(),
        ensures
            final(self).wf(),
            final(self).values() == old(self).values().remove(cell@.row as int),
            final(self).cells_view().len() == old(self).cells_view().len() - 1,
            forall|i: int|
                0 <= i < cell@.row ==> (#[trigger] final(self).cells_view()[i])@ == (CellModel {
                    rolling_mean: expected_mean(old(self).rolling_mean_config(), final(self).values(), i),
                    ..old(self).cells_view()[i]@
                }),
            forall|i: int|
                cell@.row <= i < final(self).cells_view().len() ==> (#[trigger] final(self).cells_view()[i])@
                    == (CellModel {
                    row: i as usize,
                    rolling_mean: expected_mean(old(self).rolling_mean_config(), final(self).values(), i),
                    ..old(self).cells_view()[i + 1]@
                }),
            final(self).name_view() == old(self).name_view(),
            final(self).rolling_mean_config() == old(self).rolling_mean_config(),
            final(self).returns_config() == old(self).returns_config(),
    {
        let p = cell.get_row();
        let ghost old_cells = self.cells@;
        let ghost old_values = values_of(self.cells@);
        let ghost old_groups = self.grouped_values@;
        let ghost values = old_values.remove(p as int);
        let mut groups: Vec<Group> = Vec::new();
        let mut gi: usize = 0;
        while gi < self.grouped_values.len()
            invariant
                self.grouped_values@ == old_groups,
                gi <= old_groups.len(),
                groups@.len() == gi,
                forall|a: int, b: int| 0 <= a < b < old_groups.len() ==> !(#[trigger] old_groups[a].value).same_as(#[trigger] old_groups[b].value),
                forall|a: int| 0 <= a < old_groups.len() ==> positions_hold(#[trigger] old_groups[a].positions@, old_values, old_groups[a].value),
                forall|a: int| 0 <= a < gi ==> (#[trigger] groups@[a]).value == old_groups[a].value && {
                    let r = groups@[a].positions@;
                    let ps = old_groups[a].positions@;
                    &&& forall|x: int, y: int| 0 <= x < y < r.len() ==> r[x] < r[y]
                    &&& forall|x: int|
                        0 <= x < r.len() ==> unshifted(#[trigger] r[x] as int, p as int) != p && unshifted(r[x] as int, p as int) <= usize::MAX && ps.contains(
                            unshifted(r[x] as int, p as int) as usize,
                        )
                    &&& forall|y: int|
                        0 <= y < ps.len() && ps[y] != p ==> r.contains(
                            shifted(#[trigger] ps[y] as int, p as int) as usize,
                        )
                },
            decreases old_groups.len() - gi,
        {
            assert(positions_hold(old_groups[gi as int].positions@, old_values, old_groups[gi as int].value));
            let ps = shift_out(&self.grouped_values[gi].positions, p);
            groups.push(Group { value: self.grouped_values[gi].value, positions: ps });
            gi = gi + 1;
        }
        self.grouped_values = groups;
        let ghost new_groups = self.grouped_values@;
        let ghost name = self.name;
        let ghost returns_setting = self.returns;
        self.cells.remove(p);
        assert(values_of(self.cells@) =~= values);
        let nl = self.cells.len();
        let w = self.rolling_mean.mean_over;
        let should = self.rolling_mean.should_calculate;
        let recompute_end: usize = if !should || w == 0 {
            p
        } else if w - 1 >= nl - p {
            nl
        } else {
            p + w - 1
        };
        let mut k: usize = p;
        while k < nl
            invariant
                p <= k <= nl,
                nl == self.cells@.len(),
                nl == old_cells.len() - 1,
                values_of(self.cells@) == values,
                values == old_values.remove(p as int),
                old_values == values_of(old_cells),
                self.rolling_mean.mean_over == w,
                self.rolling_mean.should_calculate == should,
                should ==> recompute_end == nl || recompute_end >= p + w - 1,
                (!should || w == 0) ==> recompute_end == p,
                self.grouped_values@ == new_groups,
                self.name == name,
                self.returns == returns_setting,
                forall|j: int| 0 <= j < old_cells.len() ==> (#[trigger] old_cells[j])@.rolling_mean
                    == expected_mean(self.rolling_mean, old_values, j),
                forall|j: int| 0 <= j < p ==> self.cells@[j] == old_cells[j],
                forall|j: int|
                    p <= j < k ==> (#[trigger] self.cells@[j])@ == (CellModel {
                        row: j as usize,
                        rolling_mean: expected_mean(self.rolling_mean, values, j),
                        ..old_cells[j + 1]@
                    }),
                forall|j: int| k <= j < nl ==> self.cells@[j] == old_cells[j + 1],
            decreases nl - k,
        {
            let mut c = self.cells[k];
            c.set_row(k);
            if k < recompute_end {
                let m = window_mean(&self.cells, w, k);
                c.set_rolling_mean(m);
                assert(c@.rolling_mean == expected_mean(self.rolling_mean, values, k as int));
            } else {
                proof {
                    lemma_mean_shift(old_values, values, self.rolling_mean, k as int, p as int);
                }
                assert(c@.rolling_mean == expected_mean(self.rolling_mean, values, k as int));
            }
            assert(c@ == (CellModel {
                row: k,
                rolling_mean: expected_mean(self.rolling_mean, values, k as int),
                ..old_cells[k + 1]@
            }));
            let ghost before = self.cells@;
            self.cells.set(k, c);
            assert(values_of(self.cells@) =~= values_of(before));
            k = k + 1;
        }
        proof {
            let g = self.grouped_values@;
            assert(g.len() == old_groups.len());
            lemma_remove_index(old_values, p as int);
            assert forall|i: int| 0 <= i < g.len() implies positions_hold(#[trigger] g[i].positions@, values, g[i].value) by {
                let r = g[i].positions@;
                let ps = old_groups[i].positions@;
                assert(positions_hold(ps, old_values, old_groups[i].value));
                assert forall|x: int| 0 <= x < r.len() implies (#[trigger] r[x]) < values.len() && values[r[x] as int].same_as(g[i].value) by {
                    let u = unshifted(r[x] as int, p as int);
                    assert(ps.contains(u as usize));
                    let y = choose|y: int| 0 <= y < ps.len() && ps[y] == u as usize;
                    assert(old_values[ps[y] as int].same_as(old_groups[i].value));
                    assert(values[r[x] as int] == old_values[u]);
                    assert(g[i].value == old_groups[i].value);
                }
            }
            assert forall|kk: int| 0 <= kk < values.len() implies #[trigger] covered(g, kk) by {
                let u = unshifted(kk, p as int);
                assert(covered(old_groups, u));
                let i1 = choose|i: int|
                    0 <= i < old_groups.len() && (#[trigger] old_groups[i].positions@).contains(u as usize);
                let y = choose|y: int| 0 <= y < old_groups[i1].positions@.len() && old_groups[i1].positions@[y] == u as usize;
                assert(g[i1].positions@.contains(shifted(old_groups[i1].positions@[y] as int, p as int) as usize));
            }
            assert forall|i: int| 0 <= i < self.cells@.len() implies (#[trigger] self.cells@[i])@.rolling_mean
                == expected_mean(self.rolling_mean, values, i) by {
                if i < p {
                    assert(self.cells@[i] == old_cells[i]);
                    lemma_mean_prefix(values, old_values, self.rolling_mean, i);
                }
            }
            self.lemma_partition();
        }
        proof {
            assert forall|i: int| 0 <= i < p implies (#[trigger] self.cells@[i])@ == (CellModel {
                rolling_mean: expected_mean(self.rolling_mean, values, i),
                ..old_cells[i]@
            }) by {
                assert(self.cells@[i] == old_cells[i]);
                lemma_mean_prefix(values, old_values, self.rolling_mean, i);
            }
        }
    }

    /// The rolling mean over `mean_over` cells whose window ends at `cell`'s row.
    pub fn cell_rolling_mean(&self, mean_over: usize, cell: &Cell) -> (r: Option<AnyType>)
        requires
            cell@.row < self.cells_view().len(),
        ensures
            r == rolling_mean_at(self.values(), mean_over as int, cell@.row as int),
    {
        window_mean(&self.cells, mean_over, cell.get_row())
    }

    /// The cells holding `value`, in row order; `None` where no cell holds it.
    pub fn get_grouped_values(&self, value: AnyType) -> (r: Option<Vec<Cell>>)
        requires
            self.wf(),
        ensures
            r is None <==> self.group_positions(value).len() == 0,
            r is Some ==> r->0@ == self.group_positions(value).map_values(
                |p: usize| self.cells_view()[p as int],
            ),
    {
        match self.find_group(&value) {
            None => {
                proof {
                    let g = self.grouped_values@;
                    assert(!exists|i: int| 0 <= i < g.len() && g[i].value.same_as(value));
                }
                None
            },
            Some(gi) => {
                let ghost g = self.grouped_values@;
                proof {
                    let i0 = choose|i: int| 0 <= i < g.len() && g[i].value.same_as(value);
                    if i0 != gi {
                        lemma_same_as_equivalence(g[i0].value, value, g[gi as int].value);
                        lemma_same_as_equivalence(g[gi as int].value, value, g[i0].value);
                        lemma_same_as_equivalence(value, g[i0].value, g[i0].value);
                        lemma_same_as_equivalence(g[gi as int].value, value, value);
                    }
                    assert(self.group_positions(value) == g[gi as int].positions@);
                    assert(positions_hold(g[gi as int].positions@, values_of(self.cells@), g[gi as int].value));
                }
                let positions = &self.grouped_values[gi].positions;
                if positions.len() == 0 {
                    return None;
                }
                let mut out: Vec<Cell> = Vec::new();
                let mut j: usize = 0;
                while j < positions.len()
                    invariant
                        j <= positions@.len(),
                        positions@ == self.group_positions(value),
                        positions_hold(positions@, values_of(self.cells@), g[gi as int].value),
                        out@ == positions@.subrange(0, j as int).map_values(
                            |p: usize| self.cells@[p as int],
                        ),
                    decreases positions@.len() - j,
                {
                    let c = self.cells[positions[j]];
                    proof {
                        assert(positions@.subrange(0, j as int + 1) =~= positions@.subrange(0, j as int).push(positions@[j as int]));
                    }
                    out.push(c);
                    proof {
                        assert(out@ =~= positions@.subrange(0, j as int + 1).map_values(
                            |p: usize| self.cells@[p as int],
                        ));
                    }
                    j = j + 1;
                }
                proof {
                    assert(positions@.subrange(0, positions@.len() as int) =~= positions@);
                }
                Some(out)
            },
        }
    }

    /// Takes the rolling-mean setting `rolling_mean` and gives every cell the rolling mean
    /// it implies (none where it is off).
    pub fn update_rolling_mean(&mut self, rolling_mean: RollingMean)
        requires
            old(self).wf(),
        ensures
            final(self).wf(),
            final(self).rolling_mean_config() == rolling_mean,
            final(self).cells_view().len() == old(self).cells_view().len(),
            forall|i: int|
                0 <= i < old(self).cells_view().len() ==> (#[trigger] final(self).cells_view()[i])@
                    == (CellModel {
                    rolling_mean: expected_mean(rolling_mean, old(self).values(), i),
                    ..old(self).cells_view()[i]@
                }),
            final(self).name_view() == old(self).name_view(),
            final(self).returns_config() == old(self).returns_config(),
    {
        if rolling_mean.should_calculate != self.rolling_mean.should_calculate
            || rolling_mean.mean_over != self.rolling_mean.mean_over {
            self.rolling_mean = rolling_mean;
        }
        let ghost old_cells = self.cells@;
        let ghost values = values_of(self.cells@);
        let ghost groups = self.grouped_values@;
        let ghost name = self.name;
        let ghost returns_setting = self.returns;
        let n = self.cells.len();
        let mut k: usize = 0;
        while k < n
            invariant
                k <= n == self.cells@.len(),
                values_of(self.cells@) == values,
                self.rolling_mean == rolling_mean,
                self.grouped_values@ == groups,
                self.name == name,
                self.returns == returns_setting,
                forall|j: int|
                    0 <= j < k ==> (#[trigger] self.cells@[j])@ == (CellModel {
                        rolling_mean: expected_mean(rolling_mean, values, j),
                        ..old_cells[j]@
                    }),
                forall|j: int| k <= j < n ==> self.cells@[j] == old_cells[j],
            decreases n - k,
        {
            let mut c = self.cells[k];
            if self.rolling_mean.should_calculate {
                let m = window_mean(&self.cells, self.rolling_mean.mean_over, k);
                c.set_rolling_mean(m);
            } else {
                c.set_rolling_mean(None);
            }
            let ghost before = self.cells@;
            self.cells.set(k, c);
            assert(values_of(self.cells@) =~= values_of(before));
            k = k + 1;
        }
        proof {
            assert(values_of(self.cells@) == values_of(old_cells));
            self.lemma_partition();
        }
    }

    /// Takes the returns setting `returns_setting` where it turns returns on or off; then,
    /// where returns are on, hands back every cell's difference to the one before it.
    pub fn update_returns(&mut self, returns_setting: Returns) -> (r: Option<Vec<AnyType>>)
        requires
            old(self).wf(),
        ensures
            final(self).wf(),
            final(self).returns_config() == (if returns_setting.should_calculate
                != old(self).returns_config().should_calculate {
                returns_setting
            } else {
                old(self).returns_config()
            }),
            final(self).cells_view() == old(self).cells_view(),
            final(self).name_view() == old(self).name_view(),
            final(self).rolling_mean_config() == old(self).rolling_mean_config(),
            r is Some <==> final(self).returns_config().should_calculate,
            r is Some ==> r->0@.len() == old(self).cells_view().len() && forall|i: int|
                0 <= i < r->0@.len() ==> #[trigger] r->0@[i] == difference_to_last(old(self).values(), i),
    {
        if returns_setting.should_calculate != self.returns.should_calculate {
            self.returns = returns_setting;
        }
        proof {
            self.lemma_partition();
        }
        if self.returns.should_calculate {
            Some(self.get_all_difference_to_last())
        } else {
            None
        }
    }

    /// Every cell's difference to the one before it, in row order; null for the first.
    pub fn get_all_difference_to_last(&self) -> (r: Vec<AnyType>)
        ensures
            r@.len() == self.cells_view().len(),
            forall|i: int| 0 <= i < r@.len() ==> #[trigger] r@[i] == difference_to_last(self.values(), i),
    {
        let mut differences: Vec<AnyType> = Vec::new();
        let n = self.cells.len();
        let mut i: usize = 0;
        while i < n
            invariant
                i <= n == self.cells@.len(),
                differences@.len() == i,
                forall|j: int| 0 <= j < i ==> #[trigger] differences@[j] == difference_to_last(self.values(), j),
            decreases n - i,
        {
            let value = self.get_difference_to_last(i);
            differences.push(value);
            i = i + 1;
        }
        differences
    }

    /// The difference of the cell at `index` to the one before it; null at the first.
    pub fn get_difference_to_last(&self, index: usize) -> (r: AnyType)
        requires
            index == 0 || index < self.cells_view().len(),
        ensures
            r == difference_to_last(self.values(), index as int),
    {
        if index == 0 {
            return AnyType::Null;
        }
        let previous_value = *self.cells[index - 1].get_value();
        let current_value = *self.cells[index].get_value();
        current_value - previous_value
    }

    /// The mean of the column's values of its first value's kind; absent when the column is
    /// empty or its first value is not an integer.
    pub fn mean(&self) -> (r: Option<AnyType>)
        ensures
            r == column_mean(self.values()),
    {
        let n = self.cells.len();
        if n == 0 {
            return None;
        }
        let first = *self.cells[0].get_value();
        let k = first.dtype();
        if first.as_wide().is_none() {
            return None;
        }
        let ghost values = values_of(self.cells@);
        let unsigned = k == DataType::UInt8 || k == DataType::UInt16 || k == DataType::UInt32 || k
            == DataType::UInt64 || k == DataType::USize;
        let mut count: usize = 0;
        let mut unsigned_total: u128 = 0;
        let mut signed_total: i128 = 0;
        let mut j: usize = 0;
        while j < n
            invariant
                j <= n == self.cells@.len(),
                values == values_of(self.cells@),
                k == values[0].kind(),
                is_integer_kind(k),
                unsigned == is_unsigned_kind(k),
                count as nat == kind_count(values.subrange(0, j as int), k),
                count <= j,
                unsigned ==> unsigned_total as int == kind_total(values.subrange(0, j as int), k),
                unsigned ==> unsigned_total <= count * 0xffff_ffff_ffff_ffffu128,
                !unsigned ==> signed_total as int == kind_total(values.subrange(0, j as int), k),
                !unsigned ==> -0x8000_0000_0000_0000 * count <= signed_total <= 0x7fff_ffff_ffff_ffff * count,
            decreases n - j,
        {
            let v = *self.cells[j].get_value();
            proof {
                let s = values.subrange(0, j as int + 1);
                assert(s.drop_last() =~= values.subrange(0, j as int));
                assert(s.last() == v);
            }
            if v.dtype() == k {
                if let Some(x) = v.as_wide() {
                    if unsigned {
                        proof {
                            assert(unsigned_total + x <= (count + 1) * 0xffff_ffff_ffff_ffffu128) by (nonlinear_arith)
                                requires
                                    unsigned_total <= count * 0xffff_ffff_ffff_ffffu128,
                                    x <= 0xffff_ffff_ffff_ffffu128,
                            ;
                            assert((count + 1) * 0xffff_ffff_ffff_ffffu128 <= 0xffff_ffff_ffff_ffffu128 * 0xffff_ffff_ffff_ffffu128) by (nonlinear_arith)
                                requires
                                    count < 0xffff_ffff_ffff_ffffu128,
                            ;
                        }
                        unsigned_total = unsigned_total + x as u128;
                    } else {
                        proof {
                            assert(-0x8000_0000_0000_0000 * (count + 1) <= signed_total + x <= 0x7fff_ffff_ffff_ffff * (count + 1)) by (nonlinear_arith)
                                requires
                                    -0x8000_0000_0000_0000 * count <= signed_total <= 0x7fff_ffff_ffff_ffff * count,
                                    -0x8000_0000_0000_0000 <= x <= 0x7fff_ffff_ffff_ffff,
                            ;
                            assert(-0x8000_0000_0000_0000 * (count + 1) >= -0x8000_0000_0000_0000 * 0x1_0000_0000_0000_0000) by (nonlinear_arith)
                                requires
                                    count < 0xffff_ffff_ffff_ffffu128,
                            ;
                            assert(0x7fff_ffff_ffff_ffff * (count + 1) <= 0x7fff_ffff_ffff_ffff * 0x1_0000_0000_0000_0000) by (nonlinear_arith)
                                requires
                                    count < 0xffff_ffff_ffff_ffffu128,
                            ;
                        }
                        signed_total = signed_total + x;
                    }
                    count = count + 1;
                }
            }
            j = j + 1;
        }
        proof {
            assert(values.subrange(0, n as int) =~= values);
            assert(count > 0) by {
                lemma_first_of_kind_counted(values, k);
            }
        }
        let quotient: i128 = if unsigned {
            proof {
                let t = unsigned_total as int;
                let c = count as int;
                vstd::arithmetic::div_mod::lemma_div_is_ordered(t, c * 0xffff_ffff_ffff_ffff, c);
                vstd::arithmetic::div_mod::lemma_div_multiples_vanish(0xffff_ffff_ffff_ffff, c);
                assert(c * 0xffff_ffff_ffff_ffff == 0xffff_ffff_ffff_ffff * c);
            }
            (unsigned_total / count as u128) as i128
        } else if signed_total >= 0 {
            signed_total / count as i128
        } else {
            -((-signed_total) / count as i128)
        };
        Some(checked_scalar_exec(k, quotient))
    }

    /// The values that convert to `T`, each with the time its row was made (seconds since
    /// the Unix epoch), in row order.
    pub fn get_values_as_vec_with_unix_datetime<T>(&self) -> (r: Vec<(i64, T)>) where
        Option<T>: From<AnyType>,

        requires
            <Option<T> as FromSpec<AnyType>>::obeys_from_spec(),
        ensures
            r@ == timed_values::<T>(self.cells_view()),
    {
        let mut values: Vec<(i64, T)> = Vec::new();
        let n = self.cells.len();
        let mut i: usize = 0;
        while i < n
            invariant
                <Option<T> as FromSpec<AnyType>>::obeys_from_spec(),
                i <= n == self.cells@.len(),
                values@ == timed_values::<T>(self.cells@.subrange(0, i as int)),
            decreases n - i,
        {
            let cell = &self.cells[i];
            proof {
                assert(self.cells@.subrange(0, i as int + 1).drop_last() =~= self.cells@.subrange(0, i as int));
            }
            let converted: Option<T> = Option::<T>::from(*cell.get_value());
            match converted {
                Some(v) => values.push((cell.get_timestamp(), v)),
                None => {},
            }
            i = i + 1;
        }
        proof {
            assert(self.cells@.subrange(0, n as int) =~= self.cells@);
        }
        values
    }

    /// The rolling means there are, each with the time its row was made (seconds since the
    /// Unix epoch), in row order.
    pub fn get_rolling_means_with_unix_datetime(&self) -> (r: Vec<(i64, AnyType)>)
        ensures
            r@ == timed_rolling_means(self.cells_view()),
    {
        let mut values: Vec<(i64, AnyType)> = Vec::new();
        let n = self.cells.len();
        let mut i: usize = 0;
        while i < n
            invariant
                i <= n == self.cells@.len(),
                values@ == timed_rolling_means(self.cells@.subrange(0, i as int)),
            decreases n - i,
        {
            let cell = &self.cells[i];
            proof {
                assert(self.cells@.subrange(0, i as int + 1).drop_last() =~= self.cells@.subrange(0, i as int));
            }
            match cell.get_rolling_mean() {
                Some(m) => values.push((cell.get_timestamp(), m)),
                None => {},
            }
            i = i + 1;
        }
        proof {
            assert(self.cells@.subrange(0, n as int) =~= self.cells@);
        }
        values
    }

    pub fn get_cells(&self) -> (r: &Vec<Cell>)
        ensures
            r@ == self.cells_view(),
    {
        &self.cells
    }

    pub fn get_name(&self) -> (r: &'static str)
        ensures
            r == self.name_view(),
    {
        self.name
    }

    pub fn get_rolling_mean(&self) -> (r: RollingMean)
        ensures
            r == self.rolling_mean_config(),
    {
        self.rolling_mean
    }

    pub fn get_returns(&self) -> (r: Returns)
        ensures
            r == self.returns_config(),
    {
        self.returns
    }
}


/// With rolling means on over a window of `w`, the cell at position `i` carries no rolling
/// mean for `i < w - 1`, and otherwise the sum of the non-null values among positions
/// `i - w + 1 ..= i` divided by how many of them are not null.
pub proof fn lemma_rolling_means_follow_window(column: &Column)
    requires
        column.wf(),
        column.rolling_mean_config().should_calculate,
    ensures
        forall|i: int|
            0 <= i < column.cells_view().len() ==> {
                let w = column.rolling_mean_config().mean_over as int;
                let window = column.values().subrange(i - w + 1, i + 1);
                (#[trigger] column.cells_view()[i])@.rolling_mean == if i < w - 1 {
                    None
                } else {
                    Some(
                        non_null_sum(window).over(
                            AnyType::USize(non_null_count(window) as usize),
                        ),
                    )
                }
            },
{
}

/// After a cell is dropped, the rolling means are those of a column built from scratch
/// out of the remaining values with the same setting.
pub proof fn lemma_drop_matches_fresh_build(
    before: &Column,
    after: &Column,
    fresh: &Column,
    p: int,
)
    requires
        before.wf(),
        after.wf(),
        fresh.wf(),
        0 <= p < before.cells_view().len(),
        after.values() == before.values().remove(p),
        fresh.values() == before.values().remove(p),
        after.rolling_mean_config() == before.rolling_mean_config(),
        fresh.rolling_mean_config() == before.rolling_mean_config(),
    ensures
        after.cells_view().len() == fresh.cells_view().len(),
        forall|i: int|
            0 <= i < after.cells_view().len() ==> (#[trigger] after.cells_view()[i])@.rolling_mean
                == fresh.cells_view()[i]@.rolling_mean,
{
    assert(after.values().len() == after.cells_view().len());
    assert(fresh.values().len() == fresh.cells_view().len());
}

/// The value index is always a partition of the cells: for every value `v`, the positions
/// filed under `v` are exactly, and in order, the positions whose value equals `v`.
pub proof fn lemma_grouped_values_partition(column: &Column, v: AnyType)
    requires
        column.wf(),
    ensures
        is_value_group(column.values(), v, column.group_positions(v)),
{
}

} // verus!
