//! The spatial-index consistency model.
//!
//! The generated triggers keep a secondary index table — one row of bounds per
//! qualifying base-table row — consistent with the base table under insert,
//! update and delete. This module states that protocol as an explicit case
//! table over (id changed?, old row qualifies?, new row qualifies?), gives it
//! an executable model, and proves the central invariant: after every
//! operation the index equals the bounds of exactly the qualifying rows.
//!
//! A row qualifies when its geometry is present (not an SQL null) and not
//! empty.

use vstd::prelude::*;

use crate::bounds::{bounds_of, bounds_from_geometry, BoundingBox, Geometry};

verus! {

/// The reduction of a row's nullable geometry: `None` for an SQL null or an
/// empty geometry, otherwise the bounds.
pub open spec fn spec_row_reduction(g: Option<Geometry>) -> Option<BoundingBox> {
    match g {
        Some(gg) => bounds_of(gg),
        None => None,
    }
}

/// Whether a row's geometry earns it an index row: present and not empty.
pub open spec fn qualifies(g: Option<Geometry>) -> bool {
    spec_row_reduction(g) is Some
}

/// The bounds of a qualifying row's geometry.
pub open spec fn spec_row_bounds(g: Option<Geometry>) -> BoundingBox
    recommends
        qualifies(g),
{
    spec_row_reduction(g).unwrap()
}

/// Computes the reduction of a row's nullable geometry.
pub fn row_reduction(g: &Option<Geometry>) -> (r: Option<BoundingBox>)
    ensures
        r == spec_row_reduction(*g),
{
    match g {
        Some(gg) => bounds_from_geometry(gg),
        None => None,
    }
}

/// One row of the spatial index: the owning base row's id and its bounds.
#[derive(Clone, Copy, Debug, PartialEq, Eq, Structural)]
pub struct SpatialIndexRow {
    pub id: i64,
    pub bounds: BoundingBox,
}

/// One base-table row, as the bulk-load statement reads it.
#[derive(Debug)]
pub struct BaseRow {
    pub id: i64,
    pub geom: Option<Geometry>,
}

/// The spatial index table: at most one row per id. Abstractly a map from id
/// to bounds.
#[derive(Debug)]
pub struct SpatialIndex {
    rows: Vec<SpatialIndexRow>,
}

spec fn row_map(rows: Seq<SpatialIndexRow>) -> Map<i64, BoundingBox>
    decreases rows.len(),
{
    if rows.len() == 0 {
        Map::empty()
    } else {
        row_map(rows.drop_last()).insert(rows.last().id, rows.last().bounds)
    }
}

spec fn unique_ids(rows: Seq<SpatialIndexRow>) -> bool {
    forall|i: int, j: int| 0 <= i < j < rows.len() ==> rows[i].id != rows[j].id
}

proof fn lemma_row_map_contains(rows: Seq<SpatialIndexRow>, id: i64)
    ensures
        row_map(rows).contains_key(id) <==> exists|k: int|
            0 <= k < rows.len() && rows[k].id == id,
    decreases rows.len(),
{
    if rows.len() == 0 {
    } else {
        lemma_row_map_contains(rows.drop_last(), id);
        if rows.last().id == id {
            assert(rows[rows.len() - 1].id == id);
        } else {
            if row_map(rows).contains_key(id) {
                let k = choose|k: int| 0 <= k < rows.drop_last().len() && rows.drop_last()[k].id
                    == id;
                assert(rows[k].id == id);
            }
            if exists|k: int| 0 <= k < rows.len() && rows[k].id == id {
                let k = choose|k: int| 0 <= k < rows.len() && rows[k].id == id;
                assert(k < rows.len() - 1);
                assert(rows.drop_last()[k].id == id);
            }
        }
    }
}

proof fn lemma_row_map_remove_at(rows: Seq<SpatialIndexRow>, k: int)
    requires
        unique_ids(rows),
        0 <= k < rows.len(),
    ensures
        row_map(rows.remove(k)) =~= row_map(rows).remove(rows[k].id),
    decreases rows.len(),
{
    rows.remove_ensures(k);
    if k == rows.len() - 1 {
        assert(rows.remove(k) =~= rows.drop_last());
        lemma_row_map_contains(rows.drop_last(), rows[k].id);
        assert(!row_map(rows.drop_last()).contains_key(rows[k].id));
        assert(row_map(rows.drop_last()).insert(rows.last().id, rows.last().bounds).remove(
            rows[k].id,
        ) =~= row_map(rows.drop_last()));
    } else {
        let shorter = rows.drop_last();
        assert(unique_ids(shorter));
        lemma_row_map_remove_at(shorter, k);
        assert(rows.remove(k).drop_last() =~= shorter.remove(k));
        assert(rows.remove(k).last() == rows.last());
        assert(rows[k].id != rows.last().id);
        assert(row_map(rows.remove(k)) == row_map(shorter.remove(k)).insert(
            rows.last().id,
            rows.last().bounds,
        ));
        assert(row_map(shorter).remove(rows[k].id).insert(rows.last().id, rows.last().bounds)
            =~= row_map(shorter).insert(rows.last().id, rows.last().bounds).remove(rows[k].id));
    }
}

impl View for SpatialIndex {
    type V = Map<i64, BoundingBox>;

    closed spec fn view(&self) -> Map<i64, BoundingBox> {
        row_map(self.rows@)
    }
}

impl SpatialIndex {
    /// The index holds at most one row per id.
    pub closed spec fn wf(&self) -> bool {
        unique_ids(self.rows@)
    }

    /// Creates an empty index.
    pub fn new() -> (r: SpatialIndex)
        ensures
            r.wf(),
            r@ == Map::<i64, BoundingBox>::empty(),
    {
        SpatialIndex { rows: Vec::new() }
    }

    /// The rows of the index, in storage order.
    pub fn rows(&self) -> (r: &Vec<SpatialIndexRow>)
        requires
            self.wf(),
        ensures
            forall|k: int|
                0 <= k < r@.len() ==> #[trigger] self@.contains_key(r@[k].id) && self@[r@[k].id]
                    == r@[k].bounds,
            r@.len() == self@.dom().len(),
    {
        proof {
            lemma_rows_in_map(self.rows@);
        }
        &self.rows
    }

    /// How many rows the index holds.
    pub fn len(&self) -> (r: usize)
        requires
            self.wf(),
        ensures
            r == self@.dom().len(),
    {
        proof {
            lemma_rows_in_map(self.rows@);
        }
        self.rows.len()
    }

    /// Deletes the index row of an id, if there is one: `DELETE ... WHERE id = ?`.
    pub fn delete_by_id(&mut self, id: i64)
        requires
            old(self).wf(),
        ensures
            final(self).wf(),
            final(self)@ == old(self)@.remove(id),
    {
        let mut i: usize = 0;
        while i < self.rows.len()
            invariant
                old(self).wf(),
                self == old(self),
                i <= self.rows@.len(),
                forall|j: int| 0 <= j < i ==> self.rows@[j].id != id,
            decreases self.rows@.len() - i,
        {
            if self.rows[i].id == id {
                proof {
                    lemma_row_map_remove_at(self.rows@, i as int);
                }
                self.rows.remove(i);
                proof {
                    lemma_unique_ids_remove(old(self).rows@, i as int);
                }
                return ;
            }
            i = i + 1;
        }
        proof {
            lemma_row_map_contains(self.rows@, id);
            assert(!self@.contains_key(id));
            assert(self@.remove(id) =~= self@);
        }
    }

    /// Inserts or replaces the index row of an id: `INSERT OR REPLACE`.
    pub fn upsert(&mut self, id: i64, bounds: BoundingBox)
        requires
            old(self).wf(),
        ensures
            final(self).wf(),
            final(self)@ == old(self)@.insert(id, bounds),
    {
        self.delete_by_id(id);
        proof {
            lemma_row_map_contains(self.rows@, id);
        }
        let ghost pre = self.rows@;
        self.rows.push(SpatialIndexRow { id, bounds });
        proof {
            assert(self.rows@.drop_last() =~= pre);
            assert(self.rows@.last() == SpatialIndexRow { id, bounds });
            assert(forall|j: int| 0 <= j < pre.len() ==> pre[j].id != id);
            assert(unique_ids(self.rows@));
            assert(old(self)@.remove(id).insert(id, bounds) =~= old(self)@.insert(id, bounds));
        }
    }

    /// Updates the bounds of an id's index row in place, leaving the index
    /// unchanged when the id has no row: `UPDATE ... SET ... WHERE id = ?`.
    pub fn update_bounds(&mut self, id: i64, bounds: BoundingBox)
        requires
            old(self).wf(),
        ensures
            final(self).wf(),
            final(self)@ == if old(self)@.contains_key(id) {
                old(self)@.insert(id, bounds)
            } else {
                old(self)@
            },
    {
        proof {
            lemma_row_map_contains(self.rows@, id);
        }
        let mut i: usize = 0;
        while i < self.rows.len()
            invariant
                old(self).wf(),
                self == old(self),
                i <= self.rows@.len(),
                forall|j: int| 0 <= j < i ==> self.rows@[j].id != id,
            decreases self.rows@.len() - i,
        {
            if self.rows[i].id == id {
                proof {
                    lemma_row_map_contains(self.rows@, id);
                }
                self.upsert(id, bounds);
                return ;
            }
            i = i + 1;
        }
    }
}

/// One base-table row mutation, as the triggers observe it: the row's id and
/// nullable geometry before and after. `geom_set` says whether the UPDATE
/// statement assigned the geometry column — the triggers declared with
/// `UPDATE OF` fire only then.
#[derive(Debug)]
pub enum RowChange {
    Insert { id: i64, geom: Option<Geometry> },
    Update {
        old_id: i64,
        new_id: i64,
        old_geom: Option<Geometry>,
        new_geom: Option<Geometry>,
        geom_set: bool,
    },
    Delete { id: i64, geom: Option<Geometry> },
}

/// The complete trigger case table: what the seven generated triggers do to
/// the index map on one base-table row mutation.
///
/// - after insert, new geometry qualifying: upsert the new row's bounds.
/// - after update, same id, geometry assigned, new disqualifying: delete by id.
/// - after update, id changed, new disqualifying: delete both ids (defensive).
/// - after update, id changed, new qualifying: delete the old id, upsert the new.
/// - after update, same id, geometry assigned, both qualifying: update bounds in place.
/// - after update, same id, geometry assigned, old disqualifying, new
///   qualifying: insert the row (written here as an upsert, which coincides
///   with the generated plain INSERT whenever the index is consistent, since
///   a disqualifying old geometry then has no index row).
/// - after delete, old geometry not null: delete by the old id.
///
/// Every other mutation leaves the index untouched.
pub open spec fn spec_apply_triggers(m: Map<i64, BoundingBox>, c: RowChange) -> Map<
    i64,
    BoundingBox,
> {
    match c {
        RowChange::Insert { id, geom } => if qualifies(geom) {
            m.insert(id, spec_row_bounds(geom))
        } else {
            m
        },
        RowChange::Update { old_id, new_id, old_geom, new_geom, geom_set } => {
            if old_id != new_id {
                if qualifies(new_geom) {
                    m.remove(old_id).insert(new_id, spec_row_bounds(new_geom))
                } else {
                    m.remove(old_id).remove(new_id)
                }
            } else if geom_set {
                if !qualifies(new_geom) {
                    m.remove(old_id)
                } else if qualifies(old_geom) {
                    if m.contains_key(new_id) {
                        m.insert(new_id, spec_row_bounds(new_geom))
                    } else {
                        m
                    }
                } else {
                    m.insert(new_id, spec_row_bounds(new_geom))
                }
            } else {
                m
            }
        },
        RowChange::Delete { id, geom } => if geom is Some {
            m.remove(id)
        } else {
            m
        },
    }
}

impl SpatialIndex {
    /// Applies to the index exactly what the seven generated triggers apply
    /// on one base-table row mutation, as an explicit case analysis over
    /// (id changed?, old row qualifies?, new row qualifies?).
    pub fn apply_triggers(&mut self, change: &RowChange)
        requires
            old(self).wf(),
        ensures
            final(self).wf(),
            final(self)@ == spec_apply_triggers(old(self)@, *change),
    {
        match change {
            RowChange::Insert { id, geom } => {
                match row_reduction(geom) {
                    Some(b) => self.upsert(*id, b),
                    None => {},
                }
            },
            RowChange::Update { old_id, new_id, old_geom, new_geom, geom_set } => {
                if *old_id != *new_id {
                    match row_reduction(new_geom) {
                        Some(b) => {
                            self.delete_by_id(*old_id);
                            self.upsert(*new_id, b);
                        },
                        None => {
                            self.delete_by_id(*old_id);
                            self.delete_by_id(*new_id);
                        },
                    }
                } else if *geom_set {
                    match row_reduction(new_geom) {
                        None => self.delete_by_id(*old_id),
                        Some(b) => {
                            if row_reduction(old_geom).is_some() {
                                self.update_bounds(*new_id, b);
                            } else {
                                self.upsert(*new_id, b);
                            }
                        },
                    }
                }
            },
            RowChange::Delete { id, geom } => {
                if geom.is_some() {
                    self.delete_by_id(*id);
                }
            },
        }
    }

    /// Runs the bulk-load statement's effect: every qualifying row of the
    /// base table is inserted-or-replaced into the index, in order.
    pub fn bulk_load(&mut self, rows: &Vec<BaseRow>)
        requires
            old(self).wf(),
        ensures
            final(self).wf(),
            final(self)@ == spec_bulk_load(old(self)@, rows@),
    {
        let mut i: usize = 0;
        while i < rows.len()
            invariant
                i <= rows@.len(),
                self.wf(),
                self@ == spec_bulk_load(old(self)@, rows@.take(i as int)),
            decreases rows@.len() - i,
        {
            proof {
                lemma_take_step_rows(rows@, i as int);
            }
            match row_reduction(&rows[i].geom) {
                Some(b) => self.upsert(rows[i].id, b),
                None => {},
            }
            i = i + 1;
        }
        assert(rows@.take(rows@.len() as int) =~= rows@);
    }
}

proof fn lemma_take_step_rows(s: Seq<BaseRow>, i: int)
    requires
        0 <= i < s.len(),
    ensures
        s.take(i + 1).drop_last() =~= s.take(i),
        s.take(i + 1).last() == s[i],
{
}

/// The effect of the bulk-load statement on the index map: every qualifying
/// base row upserted, in order.
pub open spec fn spec_bulk_load(m: Map<i64, BoundingBox>, rows: Seq<BaseRow>) -> Map<
    i64,
    BoundingBox,
>
    decreases rows.len(),
{
    if rows.len() == 0 {
        m
    } else {
        let r = rows.last();
        let m2 = spec_bulk_load(m, rows.drop_last());
        if qualifies(r.geom) {
            m2.insert(r.id, spec_row_bounds(r.geom))
        } else {
            m2
        }
    }
}

/// The base table each `BaseRow` sequence stands for.
pub open spec fn rows_base(rows: Seq<BaseRow>) -> Map<i64, Option<Geometry>>
    decreases rows.len(),
{
    if rows.len() == 0 {
        Map::empty()
    } else {
        rows_base(rows.drop_last()).insert(rows.last().id, rows.last().geom)
    }
}

/// Base rows with pairwise distinct ids, as a primary key guarantees.
pub open spec fn unique_base_ids(rows: Seq<BaseRow>) -> bool {
    forall|i: int, j: int| 0 <= i < j < rows.len() ==> rows[i].id != rows[j].id
}

/// The index a base table owes: exactly one entry per row whose geometry is
/// present and not empty, holding that geometry's bounds. This is the
/// consistency yardstick of the whole protocol.
pub open spec fn expected_index(base: Map<i64, Option<Geometry>>) -> Map<i64, BoundingBox> {
    Map::new(
        |id: i64| base.contains_key(id) && qualifies(base[id]),
        |id: i64| spec_row_bounds(base[id]),
    )
}

/// What a base-table mutation does to the base table itself.
pub open spec fn base_apply(base: Map<i64, Option<Geometry>>, c: RowChange) -> Map<
    i64,
    Option<Geometry>,
> {
    match c {
        RowChange::Insert { id, geom } => base.insert(id, geom),
        RowChange::Update { old_id, new_id, old_geom, new_geom, geom_set } => base.remove(
            old_id,
        ).insert(new_id, new_geom),
        RowChange::Delete { id, geom } => base.remove(id),
    }
}

/// Whether a mutation can happen against a base table: an insert's id is
/// fresh, an update starts from the row actually present and cannot collide
/// with another row's id, a delete names the row actually present, and an
/// update that did not assign the geometry column keeps the geometry.
pub open spec fn change_valid(base: Map<i64, Option<Geometry>>, c: RowChange) -> bool {
    match c {
        RowChange::Insert { id, geom } => !base.contains_key(id),
        RowChange::Update { old_id, new_id, old_geom, new_geom, geom_set } => {
            &&& base.contains_key(old_id)
            &&& base[old_id] == old_geom
            &&& new_id == old_id || !base.contains_key(new_id)
            &&& !geom_set ==> new_geom == old_geom
        },
        RowChange::Delete { id, geom } => base.contains_key(id) && base[id] == geom,
    }
}

/// Index consistency invariant: if the index equals the bounds of exactly the
/// qualifying base rows, then after any one insert, update or delete — with
/// the triggers applied to the index and the mutation applied to the base
/// table — it still does. By induction the index never diverges from the base
/// table over any sequence of such operations.
pub proof fn lemma_triggers_preserve_consistency(
    base: Map<i64, Option<Geometry>>,
    c: RowChange,
)
    requires
        change_valid(base, c),
    ensures
        spec_apply_triggers(expected_index(base), c) =~= expected_index(base_apply(base, c)),
{
    let m = expected_index(base);
    match c {
        RowChange::Insert { id, geom } => {
            if qualifies(geom) {
                assert(m.insert(id, spec_row_bounds(geom)) =~= expected_index(
                    base.insert(id, geom),
                ));
            } else {
                assert(m =~= expected_index(base.insert(id, geom)));
            }
        },
        RowChange::Update { old_id, new_id, old_geom, new_geom, geom_set } => {
            let base2 = base.remove(old_id).insert(new_id, new_geom);
            if old_id != new_id {
                if qualifies(new_geom) {
                    assert(m.remove(old_id).insert(new_id, spec_row_bounds(new_geom))
                        =~= expected_index(base2));
                } else {
                    assert(m.remove(old_id).remove(new_id) =~= expected_index(base2));
                }
            } else if geom_set {
                if !qualifies(new_geom) {
                    assert(m.remove(old_id) =~= expected_index(base2));
                } else if qualifies(old_geom) {
                    assert(m.contains_key(new_id));
                    assert(m.insert(new_id, spec_row_bounds(new_geom)) =~= expected_index(base2));
                } else {
                    assert(m.insert(new_id, spec_row_bounds(new_geom)) =~= expected_index(base2));
                }
            } else {
                assert(m =~= expected_index(base2));
            }
        },
        RowChange::Delete { id, geom } => {
            if geom is Some {
                assert(m.remove(id) =~= expected_index(base.remove(id)));
            } else {
                assert(m =~= expected_index(base.remove(id)));
            }
        },
    }
}

/// A whole run of mutations, applied in order through the triggers.
pub open spec fn spec_apply_triggers_seq(m: Map<i64, BoundingBox>, cs: Seq<RowChange>) -> Map<
    i64,
    BoundingBox,
>
    decreases cs.len(),
{
    if cs.len() == 0 {
        m
    } else {
        spec_apply_triggers(spec_apply_triggers_seq(m, cs.drop_last()), cs.last())
    }
}

/// A whole run of mutations, applied in order to the base table.
pub open spec fn base_apply_seq(base: Map<i64, Option<Geometry>>, cs: Seq<RowChange>) -> Map<
    i64,
    Option<Geometry>,
>
    decreases cs.len(),
{
    if cs.len() == 0 {
        base
    } else {
        base_apply(base_apply_seq(base, cs.drop_last()), cs.last())
    }
}

/// Whether each mutation of a run can happen against the base table as the
/// mutations before it have left it.
pub open spec fn changes_valid_seq(base: Map<i64, Option<Geometry>>, cs: Seq<RowChange>) -> bool
    decreases cs.len(),
{
    if cs.len() == 0 {
        true
    } else {
        changes_valid_seq(base, cs.drop_last()) && change_valid(
            base_apply_seq(base, cs.drop_last()),
            cs.last(),
        )
    }
}

/// Index consistency over any sequence of operations: starting from the index
/// a base table owes, after any run of inserts, updates and deletes the index
/// still equals the bounds of exactly the qualifying rows of the base table
/// the run has produced.
pub proof fn lemma_triggers_consistent_over_sequence(
    base: Map<i64, Option<Geometry>>,
    cs: Seq<RowChange>,
)
    requires
        changes_valid_seq(base, cs),
    ensures
        spec_apply_triggers_seq(expected_index(base), cs) =~= expected_index(
            base_apply_seq(base, cs),
        ),
    decreases cs.len(),
{
    if cs.len() == 0 {
    } else {
        lemma_triggers_consistent_over_sequence(base, cs.drop_last());
        lemma_triggers_preserve_consistency(base_apply_seq(base, cs.drop_last()), cs.last());
    }
}

/// Loading from a base table whose row ids are pairwise distinct amounts to
/// overlaying the index the base table owes on top of the existing index.
pub proof fn lemma_bulk_load_is_overlay(m: Map<i64, BoundingBox>, rows: Seq<BaseRow>)
    requires
        unique_base_ids(rows),
    ensures
        spec_bulk_load(m, rows) =~= m.union_prefer_right(expected_index(rows_base(rows))),
    decreases rows.len(),
{
    if rows.len() == 0 {
        assert(expected_index(rows_base(rows)) =~= Map::<i64, BoundingBox>::empty());
    } else {
        let shorter = rows.drop_last();
        let r = rows.last();
        assert(unique_base_ids(shorter));
        lemma_bulk_load_is_overlay(m, shorter);
        lemma_rows_base_contains(shorter, r.id);
        assert(!rows_base(shorter).contains_key(r.id));
        if qualifies(r.geom) {
            assert(expected_index(rows_base(rows)) =~= expected_index(rows_base(shorter)).insert(
                r.id,
                spec_row_bounds(r.geom),
            ));
            assert(spec_bulk_load(m, rows) =~= m.union_prefer_right(
                expected_index(rows_base(rows)),
            ));
        } else {
            assert(expected_index(rows_base(rows)) =~= expected_index(rows_base(shorter)));
        }
    }
}

proof fn lemma_rows_base_contains(rows: Seq<BaseRow>, id: i64)
    ensures
        rows_base(rows).contains_key(id) <==> exists|k: int|
            0 <= k < rows.len() && rows[k].id == id,
    decreases rows.len(),
{
    if rows.len() == 0 {
    } else {
        lemma_rows_base_contains(rows.drop_last(), id);
        if rows.last().id == id {
            assert(rows[rows.len() - 1].id == id);
        } else {
            if rows_base(rows).contains_key(id) {
                let k = choose|k: int| 0 <= k < rows.drop_last().len() && rows.drop_last()[k].id
                    == id;
                assert(rows[k].id == id);
            }
            if exists|k: int| 0 <= k < rows.len() && rows[k].id == id {
                let k = choose|k: int| 0 <= k < rows.len() && rows[k].id == id;
                assert(k < rows.len() - 1);
                assert(rows.drop_last()[k].id == id);
            }
        }
    }
}

/// Idempotent bulk load: over a base table with pairwise distinct row ids,
/// running the bulk-load statement twice leaves the index exactly as running
/// it once does.
pub proof fn lemma_bulk_load_idempotent(m: Map<i64, BoundingBox>, rows: Seq<BaseRow>)
    requires
        unique_base_ids(rows),
    ensures
        spec_bulk_load(spec_bulk_load(m, rows), rows) =~= spec_bulk_load(m, rows),
{
    lemma_bulk_load_is_overlay(m, rows);
    lemma_bulk_load_is_overlay(spec_bulk_load(m, rows), rows);
}

proof fn lemma_unique_ids_remove(rows: Seq<SpatialIndexRow>, k: int)
    requires
        unique_ids(rows),
        0 <= k < rows.len(),
    ensures
        unique_ids(rows.remove(k)),
{
    rows.remove_ensures(k);
    assert forall|i: int, j: int| 0 <= i < j < rows.remove(k).len() implies rows.remove(k)[i].id
        != rows.remove(k)[j].id by {
        let oi = if i < k {
            i
        } else {
            i + 1
        };
        let oj = if j < k {
            j
        } else {
            j + 1
        };
        assert(rows.remove(k)[i] == rows[oi]);
        assert(rows.remove(k)[j] == rows[oj]);
    }
}

proof fn lemma_rows_in_map(rows: Seq<SpatialIndexRow>)
    requires
        unique_ids(rows),
    ensures
        forall|k: int|
            0 <= k < rows.len() ==> #[trigger] row_map(rows).contains_key(rows[k].id) && row_map(
                rows,
            )[rows[k].id] == rows[k].bounds,
        row_map(rows).dom().len() == rows.len(),
        row_map(rows).dom().finite(),
    decreases rows.len(),
{
    if rows.len() == 0 {
        assert(row_map(rows).dom() =~= Set::<i64>::empty());
    } else {
        let shorter = rows.drop_last();
        lemma_rows_in_map(shorter);
        lemma_row_map_contains(shorter, rows.last().id);
        assert(!row_map(shorter).contains_key(rows.last().id));
        assert(row_map(rows).dom() =~= row_map(shorter).dom().insert(rows.last().id));
        vstd::set::axiom_set_insert_finite(row_map(shorter).dom(), rows.last().id);
        vstd::set::axiom_set_insert_len(row_map(shorter).dom(), rows.last().id);
        assert forall|k: int| 0 <= k < rows.len() implies #[trigger] row_map(
            rows,
        ).contains_key(rows[k].id) && row_map(rows)[rows[k].id] == rows[k].bounds by {
            if k < rows.len() - 1 {
                assert(shorter[k] == rows[k]);
                assert(rows[k].id != rows.last().id);
            }
        }
    }
}

} // verus!
