//! The catalogue snapshot: ordered categories with a global, contiguous
//! record numbering assigned across all of them, and a timestamp.

use vstd::prelude::*;

use crate::model::{Category, CategoryV, InvariantViolation, Programme, ProgrammeV};

verus! {

/// A persistable catalogue snapshot: the categories in seed order and the
/// time the snapshot was taken, as Unix seconds.
pub struct ProgrammeDB {
    pub categories: Vec<Category>,
    pub saved: i64,
}

/// Mathematical view of a [`ProgrammeDB`].
pub struct ProgrammeDBV {
    pub categories: Seq<CategoryV>,
    pub saved: i64,
}

impl View for ProgrammeDB {
    type V = ProgrammeDBV;

    open spec fn view(&self) -> ProgrammeDBV {
        ProgrammeDBV { categories: self.categories.deep_view(), saved: self.saved }
    }
}

/// Relies on chrono's `Utc::now`: the current time as Unix seconds.
/// `Utc::now` refuses a system clock set before the Unix epoch, so on
/// return the value is non-negative; nothing more is assumed of it.
#[verifier::external_body]
fn now_timestamp() -> (r: i64)
    ensures
        0 <= r,
{
    chrono::Utc::now().timestamp()
}

/// The number of records held by the categories before `cat`.
pub open spec fn records_before(cats: Seq<CategoryV>, cat: int) -> int
    decreases cat,
{
    if cat <= 0 {
        0
    } else {
        records_before(cats, cat - 1) + cats[cat - 1].programmes.len()
    }
}

/// The number of records held by all categories together.
pub open spec fn total_records(cats: Seq<CategoryV>) -> int {
    records_before(cats, cats.len() as int)
}

/// No record carries an index yet: the state the assembler expects.
pub open spec fn no_index_set(cats: Seq<CategoryV>) -> bool {
    forall|i: int, j: int|
        0 <= i < cats.len() && 0 <= j < cats[i].programmes.len()
            ==> (#[trigger] cats[i].programmes[j]).index is None
}

/// One record with the global index `idx` assigned.
pub open spec fn with_index_v(p: ProgrammeV, idx: usize) -> ProgrammeV {
    ProgrammeV { index: Some(idx), ..p }
}

/// The categories with the global numbering assigned: record `j` of
/// category `i` carries index `off + records_before(cats, i) + j`.
pub open spec fn indexed_off(cats: Seq<CategoryV>, off: int) -> Seq<CategoryV> {
    Seq::new(
        cats.len(),
        |i: int|
            CategoryV {
                name: cats[i].name,
                programmes: Seq::new(
                    cats[i].programmes.len(),
                    |j: int|
                        with_index_v(
                            cats[i].programmes[j],
                            (off + records_before(cats, i) + j) as usize,
                        ),
                ),
            },
    )
}

/// The categories with the global numbering assigned from zero.
pub open spec fn indexed_cats(cats: Seq<CategoryV>) -> Seq<CategoryV> {
    indexed_off(cats, 0)
}

/// `records_before` grows by one category's size at a time, so it is
/// monotone and bounded by the total.
pub proof fn lemma_records_before_mono(cats: Seq<CategoryV>, i: int, j: int)
    requires
        0 <= i <= j,
    ensures
        records_before(cats, i) <= records_before(cats, j),
    decreases j - i,
{
    if i < j {
        lemma_records_before_mono(cats, i, j - 1);
    }
}

/// Counting from the tail: dropping the first category shifts the prefix
/// sums by its size.
proof fn lemma_records_before_shift(cats: Seq<CategoryV>, i: int)
    requires
        cats.len() > 0,
        1 <= i <= cats.len(),
    ensures
        records_before(cats, i) == cats[0].programmes.len() + records_before(
            cats.drop_first(),
            i - 1,
        ),
    decreases i,
{
    if i == 1 {
        assert(records_before(cats, 0) == 0);
        assert(records_before(cats.drop_first(), 0) == 0);
    } else {
        lemma_records_before_shift(cats, i - 1);
        assert(cats.drop_first()[i - 2] == cats[i - 1]);
    }
}

/// A catalogue's flattening holds exactly its total number of records.
pub proof fn lemma_flatten_len(cats: Seq<CategoryV>)
    ensures
        flatten_cats(cats).len() == total_records(cats),
    decreases cats.len(),
{
    if cats.len() == 0 {
        assert(records_before(cats, 0) == 0);
    } else {
        let rest = cats.drop_first();
        lemma_flatten_len(rest);
        lemma_records_before_shift(cats, cats.len() as int);
    }
}

/// All the records of a catalogue, categories concatenated in order.
pub open spec fn flatten_cats(cats: Seq<CategoryV>) -> Seq<ProgrammeV>
    decreases cats.len(),
{
    if cats.len() == 0 {
        Seq::empty()
    } else {
        cats[0].programmes + flatten_cats(cats.drop_first())
    }
}

/// Global-index-contiguity law: after the numbering pass, the
/// concatenation of all categories, in category order, carries exactly
/// the indices `off .. off + N - 1`, in order, with no gaps or repeats;
/// every other field is kept.
pub proof fn lemma_index_contiguity(cats: Seq<CategoryV>, off: int)
    requires
        0 <= off,
        off + total_records(cats) <= usize::MAX,
    ensures
        flatten_cats(indexed_off(cats, off)).len() == total_records(cats),
        forall|k: int|
            0 <= k < total_records(cats) ==> (#[trigger] flatten_cats(indexed_off(cats, off))[k])
                == with_index_v(flatten_cats(cats)[k], (off + k) as usize),
    decreases cats.len(),
{
    let ind = indexed_off(cats, off);
    let flat = flatten_cats(ind);
    if cats.len() == 0 {
        assert(flat.len() == 0);
    } else {
        let rest = cats.drop_first();
        let n0 = cats[0].programmes.len() as int;
        assert(records_before(cats, 1) == n0);
        lemma_records_before_shift(cats, cats.len() as int);
        lemma_index_contiguity(rest, off + n0);
        assert(ind.drop_first() =~= indexed_off(rest, off + n0)) by {
            assert forall|i: int|
                0 <= i < rest.len() implies ind.drop_first()[i] == indexed_off(rest, off + n0)[i] by {
                assert(ind.drop_first()[i] == ind[i + 1]);
                assert(rest[i] == cats[i + 1]);
                lemma_records_before_shift(cats, i + 1);
                assert(ind[i + 1].programmes =~= indexed_off(rest, off + n0)[i].programmes);
            }
        }
        assert(flat =~= ind[0].programmes + flatten_cats(indexed_off(rest, off + n0)));
        lemma_records_before_mono(rest, 0, rest.len() as int);
        assert(total_records(cats) == n0 + total_records(rest));
        assert(flat.len() == total_records(cats));
        lemma_flatten_len(rest);
        let flat0 = flatten_cats(cats);
        assert(flat0 == cats[0].programmes + flatten_cats(rest));
        assert forall|k: int|
            0 <= k < total_records(cats) implies (#[trigger] flat[k]) == with_index_v(
            flat0[k],
            (off + k) as usize,
        ) by {
            if k < n0 {
                assert(flat[k] == ind[0].programmes[k]);
                assert(flat0[k] == cats[0].programmes[k]);
                assert(records_before(cats, 0) == 0);
            } else {
                assert(flat[k] == flatten_cats(indexed_off(rest, off + n0))[k - n0]);
                assert(flat0[k] == flatten_cats(rest)[k - n0]);
            }
        }
    }
}

impl Programme {
    /// Assign the global index of this record.
    pub fn update_index(&mut self, idx: usize)
        ensures
            final(self)@ == with_index_v(old(self)@, idx),
    {
        self.index = Some(idx);
    }
}

impl ProgrammeDB {
    /// A fresh snapshot over the given categories, stamped with the
    /// current time (a non-negative Unix-seconds value); the records'
    /// indices are left as they are until the numbering pass runs.
    pub fn new(cats: Vec<Category>) -> (db: ProgrammeDB)
        ensures
            db@.categories == cats.deep_view(),
            0 <= db@.saved,
    {
        ProgrammeDB { categories: cats, saved: now_timestamp() }
    }

    /// Whether any record already carries an index.
    fn any_index_set(&self) -> (r: bool)
        ensures
            r == !no_index_set(self@.categories),
    {
        let mut i: usize = 0;
        while i < self.categories.len()
            invariant
                i <= self@.categories.len(),
                forall|l: int, j: int|
                    0 <= l < i && 0 <= j < self@.categories[l].programmes.len()
                        ==> (#[trigger] self@.categories[l].programmes[j]).index is None,
            decreases self@.categories.len() - i,
        {
            let c = &self.categories[i];
            proof {
                assert(self@.categories[i as int] == self.categories@[i as int]@);
            }
            let mut j: usize = 0;
            while j < c.programmes.len()
                invariant
                    j <= c.programmes@.len(),
                    i < self@.categories.len(),
                    c@ == self@.categories[i as int],
                    forall|m: int|
                        0 <= m < j ==> (#[trigger] self@.categories[i as int].programmes[m]).index
                            is None,
                decreases c.programmes@.len() - j,
            {
                if c.programmes[j].index.is_some() {
                    proof {
                        assert(self@.categories[i as int].programmes[j as int]
                            == c.programmes@[j as int]@);
                        assert(!no_index_set(self@.categories));
                    }
                    return true;
                }
                proof {
                    assert(self@.categories[i as int].programmes[j as int]
                        == c.programmes@[j as int]@);
                }
                j = j + 1;
            }
            i = i + 1;
        }
        false
    }

    /// The numbering pass: assign indices `0 .. N - 1` across the
    /// concatenation of all categories, category order outer, discovery
    /// order inner. A record that already carries an index is an engine
    /// bug, not an input condition: the pass then fails and changes
    /// nothing.
    pub fn index(&mut self) -> (r: Result<(), InvariantViolation>)
        requires
            total_records(old(self)@.categories) <= usize::MAX,
        ensures
            final(self)@.saved == old(self)@.saved,
            r is Err <==> !no_index_set(old(self)@.categories),
            r matches Err(e) ==> e == InvariantViolation::IndexAlreadySet && final(self)@ == old(
                self,
            )@,
            r is Ok ==> final(self)@.categories == indexed_cats(old(self)@.categories),
    {
        if self.any_index_set() {
            return Err(InvariantViolation::IndexAlreadySet);
        }
        let ghost cats0 = self@.categories;
        let mut idx: usize = 0;
        let mut i: usize = 0;
        while i < self.categories.len()
            invariant
                i <= self@.categories.len(),
                self@.categories.len() == cats0.len(),
                self@.saved == old(self)@.saved,
                cats0 == old(self)@.categories,
                total_records(cats0) <= usize::MAX,
                idx == records_before(cats0, i as int),
                forall|l: int| 0 <= l < i ==> self@.categories[l] == indexed_cats(cats0)[l],
                forall|l: int| i <= l < cats0.len() ==> self@.categories[l] == cats0[l],
            decreases cats0.len() - i,
        {
            let ghost cats_pre = self.categories@;
            let mut c = self.categories.remove(i);
            proof {
                assert(c@ == cats0[i as int]);
            }
            let mut newprogs: Vec<Programme> = Vec::new();
            let mut j: usize = 0;
            while j < c.programmes.len()
                invariant
                    j <= c.programmes@.len(),
                    c@ == cats0[i as int],
                    i < cats0.len(),
                    total_records(cats0) <= usize::MAX,
                    idx == records_before(cats0, i as int) + j,
                    newprogs.deep_view().len() == j as int,
                    forall|m: int|
                        0 <= m < j ==> newprogs.deep_view()[m] == with_index_v(
                            cats0[i as int].programmes[m],
                            (records_before(cats0, i as int) + m) as usize,
                        ),
                decreases c.programmes@.len() - j,
            {
                proof {
                    assert(records_before(cats0, i as int + 1) == records_before(
                        cats0,
                        i as int,
                    ) + cats0[i as int].programmes.len());
                    lemma_records_before_mono(cats0, i as int + 1, cats0.len() as int);
                    assert(idx < usize::MAX);
                }
                let mut p = c.programmes[j].duplicate();
                p.update_index(idx);
                let ghost prev = newprogs.deep_view();
                newprogs.push(p);
                proof {
                    assert forall|m: int|
                        0 <= m < j + 1 implies newprogs.deep_view()[m] == with_index_v(
                        cats0[i as int].programmes[m],
                        (records_before(cats0, i as int) + m) as usize,
                    ) by {
                        if m < j {
                            assert(newprogs.deep_view()[m] == prev[m]);
                        } else {
                            assert(newprogs.deep_view()[m] == p@);
                            assert(cats0[i as int].programmes[m] == c.programmes@[m]@);
                        }
                    }
                }
                idx = idx + 1;
                j = j + 1;
            }
            c.programmes = newprogs;
            self.categories.insert(i, c);
            proof {
                assert(self.categories@ =~= cats_pre.update(i as int, c));
                assert(c@.programmes =~= indexed_cats(cats0)[i as int].programmes);
                assert(c@ == indexed_cats(cats0)[i as int]);
                assert forall|l: int|
                    0 <= l < i + 1 implies self@.categories[l] == indexed_cats(cats0)[l] by {
                    assert(self@.categories[l] == self.categories@[l]@);
                    if l < i {
                        assert(self.categories@[l] == cats_pre[l]);
                    } else {
                        assert(self.categories@[l] == c);
                    }
                }
                assert forall|l: int|
                    i + 1 <= l < cats0.len() implies self@.categories[l] == cats0[l] by {
                    assert(self@.categories[l] == self.categories@[l]@);
                    assert(self.categories@[l] == cats_pre[l]);
                }
            }
            i = i + 1;
        }
        proof {
            assert(self@.categories =~= indexed_cats(cats0));
        }
        Ok(())
    }
}

} // verus!
