use vstd::prelude::*;

verus! {

broadcast use vstd::std_specs::hash::group_hash_axioms;

/// The key a stored value is filed under.
pub type StorageId = u32;

/// An id-keyed store: each inserted value receives a fresh, randomly drawn
/// id, and is read, changed and removed through it.
pub struct Storage<T> {
    items: std::collections::HashMap<StorageId, T>,
}

impl<T> View for Storage<T> {
    type V = Map<StorageId, T>;

    closed spec fn view(&self) -> Map<StorageId, T> {
        self.items@
    }
}

/// Relies on rand::random: one value drawn from the standard uniform
/// distribution; nothing is promised about which value comes back.
#[verifier::external_body]
fn random_id() -> StorageId {
    rand::random::<StorageId>()
}

/// Relies on HashMap::get_mut: a mutable borrow of the value filed under
/// `k`, where the map has one; what the borrower leaves behind is what the
/// map then holds under `k`.
#[verifier::external_body]
fn map_get_mut<'a, T>(m: &'a mut std::collections::HashMap<u32, T>, k: &u32) -> (r: Option<
    &'a mut T,
>)
    ensures
        old(m)@.contains_key(*k) ==> (r matches Some(v) && *v == old(m)@[*k]
            && final(m)@ == old(m)@.insert(*k, *final(v))),
        !old(m)@.contains_key(*k) ==> r is None && final(m)@ == old(m)@,
{
    m.get_mut(k)
}

impl<T> Storage<T> {
    pub fn new() -> (r: Self)
        ensures
            r@ == Map::<StorageId, T>::empty(),
    {
        Storage { items: std::collections::HashMap::new() }
    }

    /// Files `value` under a fresh id and hands the id back. Ids are drawn
    /// at random; when the draws keep colliding the smallest unused id is
    /// taken instead.
    pub fn insert(&mut self, value: T) -> (id: StorageId)
        requires
            old(self)@.dom().len() < u32::MAX as nat,
        ensures
            !old(self)@.contains_key(id),
            final(self)@ == old(self)@.insert(id, value),
    {
        let mut id: StorageId = random_id();
        let mut attempts: u32 = 8;
        while attempts > 0 && self.items.contains_key(&id)
            invariant
                *self == *old(self),
            decreases attempts,
        {
            id = random_id();
            attempts = attempts - 1;
        }
        if self.items.contains_key(&id) {
            id = 0;
            let ghost mut remaining: Set<StorageId> = self@.dom();
            proof {
                assert(self@.dom().difference(Set::new(|x: StorageId| x < 0)) =~= self@.dom());
            }
            while self.items.contains_key(&id)
                invariant
                    *self == *old(self),
                    forall|j: StorageId| j < id ==> old(self)@.dom().contains(j),
                    remaining == old(self)@.dom().difference(Set::new(|x: StorageId| x < id)),
                    remaining.len() + id == old(self)@.dom().len(),
                    remaining.finite(),
                    old(self)@.dom().len() < u32::MAX as nat,
                decreases remaining.len(),
            {
                proof {
                    assert(remaining.contains(id));
                    remaining = remaining.remove(id);
                    assert(remaining =~= old(self)@.dom().difference(
                        Set::new(|x: StorageId| x < id + 1),
                    ));
                }
                id = id + 1;
            }
        }
        self.items.insert(id, value);
        id
    }

    /// The value filed under `id`, if any.
    pub fn get(&self, id: &StorageId) -> (r: Option<&T>)
        ensures
            match r {
                Some(v) => self@.contains_key(*id) && *v == self@[*id],
                None => !self@.contains_key(*id),
            },
    {
        self.items.get(id)
    }

    /// A mutable borrow of the value filed under `id`, if any.
    pub fn get_mut(&mut self, id: &StorageId) -> (r: Option<&mut T>)
        ensures
            old(self)@.contains_key(*id) ==> (r matches Some(v) && *v == old(self)@[*id]
                && final(self)@ == old(self)@.insert(*id, *final(v))),
            !old(self)@.contains_key(*id) ==> r is None && final(self)@ == old(self)@,
    {
        map_get_mut(&mut self.items, id)
    }

    /// Takes the value filed under `id` out of the store, if any.
    pub fn remove(&mut self, id: &StorageId) -> (r: Option<T>)
        ensures
            final(self)@ == old(self)@.remove(*id),
            match r {
                Some(v) => old(self)@.contains_key(*id) && v == old(self)@[*id],
                None => !old(self)@.contains_key(*id),
            },
    {
        self.items.remove(id)
    }
}

impl<T> Default for Storage<T> {
    fn default() -> (r: Self)
        ensures
            r@ == Map::<StorageId, T>::empty(),
    {
        Storage { items: std::collections::HashMap::new() }
    }
}

/// A fixed-size two-dimensional grid stored row-major in one allocation.
pub struct Array2d<T> {
    col_count: usize,
    row_count: usize,
    array: Vec<T>,
}

impl<T> View for Array2d<T> {
    type V = Seq<T>;

    closed spec fn view(&self) -> Seq<T> {
        self.array@
    }
}

impl<T> Array2d<T> {
    /// The number of columns in each row.
    pub closed spec fn spec_cols(&self) -> usize {
        self.col_count
    }

    /// The number of rows.
    pub closed spec fn spec_rows(&self) -> usize {
        self.row_count
    }

    /// The grid holds exactly one cell per row and column.
    pub closed spec fn wf(&self) -> bool {
        self.array@.len() == self.row_count * self.col_count
    }
}

impl<T: Clone> Array2d<T> {
    /// A grid of `rows` by `cols` cells, each holding a clone of
    /// `default_value`.
    pub fn new(rows: usize, cols: usize, default_value: T) -> (r: Self)
        requires
            rows * cols <= usize::MAX,
        ensures
            r.wf(),
            r.spec_cols() == cols,
            r.spec_rows() == rows,
            r@.len() == rows * cols,
    {
        let total = rows * cols;
        let mut array: Vec<T> = Vec::new();
        let mut i: usize = 0;
        while i < total
            invariant
                i <= total,
                array@.len() == i,
            decreases total - i,
        {
            array.push(default_value.clone());
            i = i + 1;
        }
        Array2d { col_count: cols, row_count: rows, array }
    }
}

impl<T> Array2d<T> {
    /// The cell in column `c` of row `r`, if both are in range.
    pub fn get(&self, c: usize, r: usize) -> (res: Option<&T>)
        requires
            self.wf(),
        ensures
            c < self.spec_cols() && r < self.spec_rows() ==> (res matches Some(v) && *v == self@[
                r * self.spec_cols() + c
            ]),
            !(c < self.spec_cols() && r < self.spec_rows()) ==> res is None,
    {
        if c >= self.col_count || r >= self.row_count {
            return None;
        }
        let total = self.array.len();
        proof {
            assert(r * self.col_count + c < self.row_count * self.col_count) by (nonlinear_arith)
                requires
                    r < self.row_count,
                    c < self.col_count,
            ;
            assert(r * self.col_count + c < total);
        }
        Some(&self.array[r * self.col_count + c])
    }

    /// The grid's shape: columns, then rows.
    pub fn len(&self) -> (r: (usize, usize))
        ensures
            r.0 == self.spec_cols(),
            r.1 == self.spec_rows(),
    {
        (self.col_count, self.row_count)
    }
}

} // verus!
