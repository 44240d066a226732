//! Tables of the relational model: rows under a 128-bit primary key, and
//! rows that tag an owner with an integer.

use vstd::prelude::*;

verus! {

/// A table whose rows are found by a 128-bit primary key.
///
/// Its value is the finite map from each key to its row.
pub struct Table<R> {
    keys: Vec<u128>,
    rows: Vec<R>,
}

impl<R> View for Table<R> {
    type V = Map<u128, R>;

    closed spec fn view(&self) -> Map<u128, R> {
        Map::new(
            |k: u128| exists|i: int| 0 <= i < self.keys@.len() && self.keys@[i] == k,
            |k: u128| self.rows@[choose|i: int| 0 <= i < self.keys@.len() && self.keys@[i] == k],
        )
    }
}

impl<R> Table<R> {
    /// Number of rows.
    pub closed spec fn spec_len(&self) -> nat {
        self.keys@.len()
    }

    /// Key of the row at a position.
    pub closed spec fn spec_key(&self, i: int) -> u128 {
        self.keys@[i]
    }

    /// Row at a position.
    pub closed spec fn spec_row(&self, i: int) -> R {
        self.rows@[i]
    }

    /// Every row has one key, and no key occurs twice.
    pub closed spec fn wf(&self) -> bool {
        &&& self.keys@.len() == self.rows@.len()
        &&& forall|i: int, j: int|
            0 <= i < j < self.keys@.len() ==> self.keys@[i] != self.keys@[j]
    }

    /// The row at a position is the one the map holds under that position's key.
    pub proof fn lemma_position(&self, i: int)
        requires
            self.wf(),
            0 <= i < self.spec_len(),
        ensures
            self@.contains_key(self.spec_key(i)),
            self@[self.spec_key(i)] == self.spec_row(i),
    {
        let k = self.keys@[i];
        let j = choose|j: int| 0 <= j < self.keys@.len() && self.keys@[j] == k;
        assert(j == i);
    }

    /// Every key of the map stands at some position.
    pub proof fn lemma_key(&self, k: u128) -> (i: int)
        requires
            self.wf(),
            self@.contains_key(k),
        ensures
            0 <= i < self.spec_len(),
            self.spec_key(i) == k,
            self.spec_row(i) == self@[k],
    {
        let i = choose|i: int| 0 <= i < self.keys@.len() && self.keys@[i] == k;
        i
    }

    /// Two positions hold two keys.
    pub proof fn lemma_distinct(&self, i: int, j: int)
        requires
            self.wf(),
            0 <= i < self.spec_len(),
            0 <= j < self.spec_len(),
            i != j,
        ensures
            self.spec_key(i) != self.spec_key(j),
    {
    }

    /// The empty table.
    pub fn new() -> (t: Table<R>)
        ensures
            t.wf(),
            t@ == Map::<u128, R>::empty(),
            t.spec_len() == 0,
    {
        let t = Table { keys: Vec::new(), rows: Vec::new() };
        assert(t@ =~= Map::<u128, R>::empty());
        t
    }

    pub fn len(&self) -> (n: usize)
        requires
            self.wf(),
        ensures
            n == self.spec_len(),
    {
        self.keys.len()
    }

    /// The key at a position.
    pub fn key_at(&self, i: usize) -> (k: u128)
        requires
            self.wf(),
            i < self.spec_len(),
        ensures
            k == self.spec_key(i as int),
            self@.contains_key(k),
            self@[k] == self.spec_row(i as int),
    {
        proof {
            self.lemma_position(i as int);
        }
        self.keys[i]
    }

    /// The row at a position.
    pub fn row_at(&self, i: usize) -> (r: &R)
        requires
            self.wf(),
            i < self.spec_len(),
        ensures
            *r == self.spec_row(i as int),
            self@.contains_key(self.spec_key(i as int)),
            self@[self.spec_key(i as int)] == *r,
    {
        proof {
            self.lemma_position(i as int);
        }
        &self.rows[i]
    }

    /// Where a key stands, if the table holds it.
    pub fn position(&self, key: u128) -> (r: Option<usize>)
        requires
            self.wf(),
        ensures
            match r {
                Some(i) => i < self.spec_len() && self.spec_key(i as int) == key
                    && self@.contains_key(key) && self@[key] == self.spec_row(i as int),
                None => !self@.contains_key(key),
            },
    {
        let mut i: usize = 0;
        while i < self.keys.len()
            invariant
                self.wf(),
                i <= self.keys@.len(),
                forall|j: int| 0 <= j < i ==> self.keys@[j] != key,
            decreases self.keys@.len() - i,
        {
            if self.keys[i] == key {
                proof {
                    self.lemma_position(i as int);
                }
                return Some(i);
            }
            i += 1;
        }
        None
    }

    /// Whether the table holds a key.
    pub fn contains_key(&self, key: u128) -> (b: bool)
        requires
            self.wf(),
        ensures
            b == self@.contains_key(key),
    {
        self.position(key).is_some()
    }

    /// The row under a key.
    pub fn get(&self, key: u128) -> (r: Option<&R>)
        requires
            self.wf(),
        ensures
            match r {
                Some(row) => self@.contains_key(key) && *row == self@[key],
                None => !self@.contains_key(key),
            },
    {
        match self.position(key) {
            Some(i) => Some(&self.rows[i]),
            None => None,
        }
    }

    /// Puts a row under a key, in place of the row that was there, if any.
    pub fn insert(&mut self, key: u128, row: R)
        requires
            old(self).wf(),
        ensures
            final(self).wf(),
            final(self)@ == old(self)@.insert(key, row),
    {
        match self.position(key) {
            Some(i) => {
                self.rows.set(i, row);
                proof {
                    assert forall|k: u128| #[trigger] self@.contains_key(k) implies self@[k] == old(self)@.insert(key, row)[k] by {
                        let j = self.lemma_key(k);
                        old(self).lemma_position(j);
                    }
                    assert(self@ =~= old(self)@.insert(key, row));
                }
            },
            None => {
                self.keys.push(key);
                self.rows.push(row);
                proof {
                    let n = old(self).keys@.len() as int;
                    assert(self.keys@[n] == key);
                    assert forall|k: u128| #[trigger]
                        old(self)@.insert(key, row).contains_key(k) implies self@.contains_key(k) by {
                        if k == key {
                            self.lemma_position(n);
                        } else {
                            let j = old(self).lemma_key(k);
                            assert(self.keys@[j] == k);
                        }
                    }
                    assert forall|k: u128| #[trigger] self@.contains_key(k) implies old(
                        self,
                    )@.insert(key, row).contains_key(k) && self@[k] == old(self)@.insert(
                        key,
                        row,
                    )[k] by {
                        let j = self.lemma_key(k);
                        if j < n {
                            assert(old(self).keys@[j] == k);
                            old(self).lemma_position(j);
                        }
                    }
                    assert(self@ =~= old(self)@.insert(key, row));
                }
            },
        }
    }

    /// Takes out the row at a position; the rows behind it move up by one.
    pub fn remove_at(&mut self, i: usize)
        requires
            old(self).wf(),
            i < old(self).spec_len(),
        ensures
            final(self).wf(),
            final(self)@ == old(self)@.remove(old(self).spec_key(i as int)),
            final(self).spec_len() == old(self).spec_len() - 1,
            forall|j: int|
                0 <= j < i ==> final(self).spec_key(j) == old(self).spec_key(j) && final(self).spec_row(j) == old(self).spec_row(j),
            forall|j: int|
                i <= j < final(self).spec_len() ==> final(self).spec_key(j) == old(self).spec_key(
                    j + 1,
                ) && final(self).spec_row(j) == old(self).spec_row(j + 1),
    {
        let ghost key = self.keys@[i as int];
        self.keys.remove(i);
        self.rows.remove(i);
        proof {
            let before = old(self)@.remove(key);
            assert forall|k: u128| #[trigger] before.contains_key(k) implies self@.contains_key(k) by {
                let j = old(self).lemma_key(k);
                if j < i {
                    assert(self.keys@[j] == k);
                } else {
                    assert(j > i);
                    assert(self.keys@[j - 1] == k);
                }
            }
            assert forall|k: u128| #[trigger] self@.contains_key(k) implies before.contains_key(
                k,
            ) && self@[k] == before[k] by {
                let j = self.lemma_key(k);
                if j < i {
                    assert(old(self).keys@[j] == k);
                    old(self).lemma_position(j);
                } else {
                    assert(old(self).keys@[j + 1] == k);
                    old(self).lemma_position(j + 1);
                }
            }
            assert(self@ =~= before);
        }
    }

    /// Takes out the row under a key; says whether there was one.
    pub fn remove(&mut self, key: u128) -> (found: bool)
        requires
            old(self).wf(),
        ensures
            final(self).wf(),
            found == old(self)@.contains_key(key),
            final(self)@ == old(self)@.remove(key),
    {
        match self.position(key) {
            Some(i) => {
                self.remove_at(i);
                true
            },
            None => {
                assert(old(self)@.remove(key) =~= old(self)@);
                false
            },
        }
    }
}


/// A row with a mathematical value that can be copied.
pub trait Row: View + Sized {
    fn copy_row(&self) -> (r: Self)
        ensures
            r@ == self@,
    ;
}

impl<R: Row> Table<R> {
    /// A copy of the table: the same keys, and under each a row of the same value.
    pub fn copy_table(&self) -> (t: Table<R>)
        requires
            self.wf(),
        ensures
            t.wf(),
            t@.dom() == self@.dom(),
            forall|k: u128| #[trigger] self@.contains_key(k) ==> t@[k]@ == self@[k]@,
    {
        let mut keys: Vec<u128> = Vec::new();
        let mut rows: Vec<R> = Vec::new();
        let mut i: usize = 0;
        while i < self.keys.len()
            invariant
                self.wf(),
                i <= self.keys@.len(),
                keys@ == self.keys@.take(i as int),
                rows@.len() == i,
                forall|j: int| 0 <= j < i ==> (#[trigger] rows@[j])@ == self.rows@[j]@,
            decreases self.keys@.len() - i,
        {
            keys.push(self.keys[i]);
            rows.push(self.rows[i].copy_row());
            proof {
                self.keys@.lemma_take_succ_push(i as int);
            }
            i += 1;
        }
        let t = Table { keys, rows };
        proof {
            self.keys@.lemma_take_len();
            assert(t.keys@ == self.keys@);
            assert(t.wf());
            assert forall|k: u128| #[trigger] self@.contains_key(k) implies t@.contains_key(k)
                && t@[k]@ == self@[k]@ by {
                let j = self.lemma_key(k);
                assert(t.keys@[j] == k);
                t.lemma_position(j);
            }
            assert forall|k: u128| #[trigger] t@.contains_key(k) implies self@.contains_key(k) by {
                let j = t.lemma_key(k);
                self.lemma_position(j);
            }
            assert(t@.dom() =~= self@.dom());
        }
        t
    }
}

impl<R: Copy> Table<R> {
    /// A copy of a table of plain rows.
    pub fn duplicate(&self) -> (t: Table<R>)
        requires
            self.wf(),
        ensures
            t.wf(),
            t@ == self@,
    {
        let mut keys: Vec<u128> = Vec::new();
        let mut rows: Vec<R> = Vec::new();
        let mut i: usize = 0;
        while i < self.keys.len()
            invariant
                self.wf(),
                i <= self.keys@.len(),
                keys@ == self.keys@.take(i as int),
                rows@ == self.rows@.take(i as int),
            decreases self.keys@.len() - i,
        {
            keys.push(self.keys[i]);
            rows.push(self.rows[i]);
            proof {
                self.keys@.lemma_take_succ_push(i as int);
                self.rows@.lemma_take_succ_push(i as int);
            }
            i += 1;
        }
        let t = Table { keys, rows };
        proof {
            self.keys@.lemma_take_len();
            self.rows@.lemma_take_len();
            assert(t@ =~= self@);
        }
        t
    }
}

/// A row that names a parent row by its key.
pub trait Child {
    /// Key of the parent row.
    spec fn spec_parent(&self) -> u128;

    fn parent(&self) -> (p: u128)
        ensures
            p == self.spec_parent(),
    ;
}

/// The rows whose parent is one of the given keys.
pub open spec fn children_in<R: Child>(rows: Map<u128, R>, live: Set<u128>) -> Map<u128, R> {
    Map::new(
        |k: u128| rows.contains_key(k) && live.contains(rows[k].spec_parent()),
        |k: u128| rows[k],
    )
}

impl<R: Child> Table<R> {
    /// Deletes the rows whose parent is not a key of `parents`: what a
    /// cascading foreign key does after rows of the parent table went.
    pub fn retain_children<P>(&mut self, parents: &Table<P>)
        requires
            old(self).wf(),
            parents.wf(),
        ensures
            final(self).wf(),
            final(self)@ == children_in(old(self)@, parents@.dom()),
    {
        let ghost orig = self@;
        let ghost live = parents@.dom();
        let mut i: usize = 0;
        while i < self.len()
            invariant
                self.wf(),
                parents.wf(),
                live == parents@.dom(),
                i <= self.spec_len(),
                forall|k: u128| #[trigger]
                    self@.contains_key(k) ==> orig.contains_key(k) && self@[k] == orig[k],
                forall|k: u128|
                    orig.contains_key(k) && live.contains(orig[k].spec_parent())
                        ==> #[trigger] self@.contains_key(k),
                forall|j: int|
                    0 <= j < i ==> live.contains(#[trigger] self.spec_row(j).spec_parent()),
            decreases self.spec_len() - i,
        {
            let p = self.row_at(i).parent();
            if parents.contains_key(p) {
                i += 1;
            } else {
                self.remove_at(i);
            }
        }
        proof {
            assert forall|k: u128| #[trigger] self@.contains_key(k) implies children_in(
                orig,
                live,
            ).contains_key(k) by {
                let j = self.lemma_key(k);
                assert(live.contains(self.spec_row(j).spec_parent()));
            }
            assert(self@ =~= children_in(orig, live));
        }
    }
}

/// The rows whose parent is not the given key.
pub open spec fn children_not_of<R: Child>(rows: Map<u128, R>, parent: u128) -> Map<u128, R> {
    Map::new(
        |k: u128| rows.contains_key(k) && rows[k].spec_parent() != parent,
        |k: u128| rows[k],
    )
}

impl<R: Child> Table<R> {
    /// Deletes the rows of one parent.
    pub fn remove_children_of(&mut self, parent: u128)
        requires
            old(self).wf(),
        ensures
            final(self).wf(),
            final(self)@ == children_not_of(old(self)@, parent),
    {
        let ghost orig = self@;
        let mut i: usize = 0;
        while i < self.len()
            invariant
                self.wf(),
                i <= self.spec_len(),
                forall|k: u128| #[trigger]
                    self@.contains_key(k) ==> orig.contains_key(k) && self@[k] == orig[k],
                forall|k: u128|
                    orig.contains_key(k) && orig[k].spec_parent() != parent
                        ==> #[trigger] self@.contains_key(k),
                forall|j: int|
                    0 <= j < i ==> (#[trigger] self.spec_row(j)).spec_parent() != parent,
            decreases self.spec_len() - i,
        {
            let p = self.row_at(i).parent();
            if p != parent {
                i += 1;
            } else {
                self.remove_at(i);
            }
        }
        proof {
            assert forall|k: u128| #[trigger] self@.contains_key(k) implies children_not_of(
                orig,
                parent,
            ).contains_key(k) by {
                let j = self.lemma_key(k);
                assert(self.spec_row(j).spec_parent() != parent);
            }
            assert(self@ =~= children_not_of(orig, parent));
        }
    }
}

/// The markers whose owner is one of the given keys.
pub open spec fn owned_in(live: Set<u128>) -> spec_fn(Marker) -> bool {
    |m: Marker| live.contains(m.owner)
}

/// A row that tags an owner, named by its 128-bit key, with an integer.
#[derive(Clone, Copy, Debug, PartialEq, Eq, Structural)]
pub struct Marker {
    pub owner: u128,
    pub tag: i32,
}

/// The rows of one owner.
pub open spec fn owned_by(owner: u128) -> spec_fn(Marker) -> bool {
    |m: Marker| m.owner == owner
}

/// The rows of all owners but one.
pub open spec fn not_owned_by(owner: u128) -> spec_fn(Marker) -> bool {
    |m: Marker| m.owner != owner
}

/// All rows but one.
pub open spec fn other_than(row: Marker) -> spec_fn(Marker) -> bool {
    |m: Marker| m != row
}

/// The tag of a row.
pub open spec fn tag_of() -> spec_fn(Marker) -> i32 {
    |m: Marker| m.tag
}

/// The tags of one owner, in the order of the rows.
pub open spec fn tags_of(rows: Seq<Marker>, owner: u128) -> Seq<i32> {
    rows.filter(owned_by(owner)).map_values(tag_of())
}

/// Filtering a sequence without duplicates leaves a sequence without
/// duplicates, made of rows that were there and pass the filter.
pub proof fn lemma_filter_keeps_distinct(rows: Seq<Marker>, pred: spec_fn(Marker) -> bool)
    requires
        rows.no_duplicates(),
    ensures
        rows.filter(pred).no_duplicates(),
        forall|i: int|
            0 <= i < rows.filter(pred).len() ==> pred(#[trigger] rows.filter(pred)[i])
                && rows.contains(rows.filter(pred)[i]),
    decreases rows.len(),
{
    reveal(Seq::filter);
    if rows.len() > 0 {
        let front = rows.drop_last();
        lemma_filter_keeps_distinct(front, pred);
        let kept = front.filter(pred);
        assert forall|i: int| 0 <= i < kept.len() implies kept[i] != rows.last() && rows.contains(
            #[trigger] kept[i],
        ) by {
            assert(front.contains(kept[i]));
            let j = choose|j: int| 0 <= j < front.len() && front[j] == kept[i];
            assert(rows[j] == kept[i]);
        }
        if pred(rows.last()) {
            assert(rows[rows.len() - 1] == rows.last());
        }
    }
}

/// An owner has a tag exactly when the row of the two is in the table.
pub proof fn lemma_tags_of_contains(rows: Seq<Marker>, owner: u128, tag: i32)
    ensures
        tags_of(rows, owner).contains(tag) <==> rows.contains(Marker { owner, tag }),
{
    let kept = rows.filter(owned_by(owner));
    let tags = tags_of(rows, owner);
    let m = Marker { owner, tag };
    if tags.contains(tag) {
        let i = choose|i: int| 0 <= i < tags.len() && tags[i] == tag;
        rows.lemma_filter_pred(owned_by(owner), i);
        assert(kept[i] == m);
        assert(kept.contains(m));
        rows.lemma_filter_contains_rev(owned_by(owner), m);
    }
    if rows.contains(m) {
        let j = choose|j: int| 0 <= j < rows.len() && rows[j] == m;
        rows.lemma_filter_contains(owned_by(owner), j);
        let i = choose|i: int| 0 <= i < kept.len() && kept[i] == m;
        assert(tags[i] == tag);
    }
}

/// The rows after one owner got each of the given tags that it did not
/// have yet, in their order.
pub open spec fn with_markers(rows: Seq<Marker>, owner: u128, tags: Seq<i32>) -> Seq<Marker>
    decreases tags.len(),
{
    if tags.len() == 0 {
        rows
    } else {
        let front = with_markers(rows, owner, tags.drop_last());
        let m = Marker { owner, tag: tags.last() };
        if front.contains(m) {
            front
        } else {
            front.push(m)
        }
    }
}

/// Giving an owner tags adds rows of that owner only, and none twice.
pub proof fn lemma_with_markers(rows: Seq<Marker>, owner: u128, tags: Seq<i32>)
    ensures
        rows.no_duplicates() ==> with_markers(rows, owner, tags).no_duplicates(),
        forall|i: int|
            0 <= i < with_markers(rows, owner, tags).len() ==> rows.contains(
                #[trigger] with_markers(rows, owner, tags)[i],
            ) || with_markers(rows, owner, tags)[i].owner == owner,
        forall|m: Marker| rows.contains(m) ==> #[trigger] with_markers(rows, owner, tags).contains(m),
        forall|i: int|
            0 <= i < tags.len() ==> with_markers(rows, owner, tags).contains(
                Marker { owner, tag: #[trigger] tags[i] },
            ),
        forall|m: Marker| #[trigger]
            with_markers(rows, owner, tags).contains(m) ==> rows.contains(m) || (m.owner == owner
                && tags.contains(m.tag)),
    decreases tags.len(),
{
    let all = with_markers(rows, owner, tags);
    if tags.len() > 0 {
        let front = with_markers(rows, owner, tags.drop_last());
        lemma_with_markers(rows, owner, tags.drop_last());
        let last = Marker { owner, tag: tags.last() };
        assert forall|m: Marker| front.contains(m) implies all.contains(m) by {
            let j = choose|j: int| 0 <= j < front.len() && front[j] == m;
            assert(all[j] == m);
        }
        if !front.contains(last) {
            assert(all[front.len() as int] == last);
        }
        assert forall|i: int| 0 <= i < tags.len() implies all.contains(
            Marker { owner, tag: #[trigger] tags[i] },
        ) by {
            if i < tags.len() - 1 {
                assert(tags.drop_last()[i] == tags[i]);
            }
        }
        assert forall|i: int| 0 <= i < all.len() implies rows.contains(#[trigger] all[i])
            || all[i].owner == owner by {
            if i < front.len() {
                assert(all[i] == front[i]);
            }
        }
        assert forall|m: Marker| #[trigger] all.contains(m) implies rows.contains(m) || (m.owner
            == owner && tags.contains(m.tag)) by {
            let j = choose|j: int| 0 <= j < all.len() && all[j] == m;
            if j < front.len() {
                assert(front[j] == m);
                assert(front.contains(m));
                if !rows.contains(m) {
                    let t = choose|t: int|
                        0 <= t < tags.drop_last().len() && tags.drop_last()[t] == m.tag;
                    assert(tags[t] == m.tag);
                }
            } else {
                assert(m == last);
                assert(tags[tags.len() - 1] == m.tag);
            }
        }
    }
}

/// A table of markers without a key of its own. Its value is the sequence of
/// its rows, oldest first.
pub struct MarkerTable {
    rows: Vec<Marker>,
}

impl View for MarkerTable {
    type V = Seq<Marker>;

    closed spec fn view(&self) -> Seq<Marker> {
        self.rows@
    }
}

impl MarkerTable {
    /// The empty table.
    pub fn new() -> (t: MarkerTable)
        ensures
            t@ == Seq::<Marker>::empty(),
    {
        MarkerTable { rows: Vec::new() }
    }

    /// Appends a row.
    pub fn push(&mut self, row: Marker)
        ensures
            final(self)@ == old(self)@.push(row),
    {
        self.rows.push(row);
    }

    /// Whether a row is in the table.
    pub fn contains(&self, row: Marker) -> (b: bool)
        ensures
            b == self@.contains(row),
    {
        let mut i: usize = 0;
        while i < self.rows.len()
            invariant
                i <= self.rows@.len(),
                forall|j: int| 0 <= j < i ==> self.rows@[j] != row,
            decreases self.rows@.len() - i,
        {
            let m = self.rows[i];
            if m.owner == row.owner && m.tag == row.tag {
                return true;
            }
            i += 1;
        }
        false
    }

    /// The tags of one owner, in the order of the rows.
    pub fn tags(&self, owner: u128) -> (r: Vec<i32>)
        ensures
            r@ == tags_of(self@, owner),
    {
        let mut out: Vec<i32> = Vec::new();
        let mut i: usize = 0;
        proof {
            assert(self.rows@.take(0) =~= Seq::<Marker>::empty());
            Seq::<Marker>::empty().lemma_all_neg_filter_empty(owned_by(owner));
        }
        while i < self.rows.len()
            invariant
                i <= self.rows@.len(),
                out@ == tags_of(self.rows@.take(i as int), owner),
            decreases self.rows@.len() - i,
        {
            let m = self.rows[i];
            proof {
                let prefix = self.rows@.take(i as int);
                self.rows@.lemma_take_succ_push(i as int);
                prefix.lemma_filter_push(m, owned_by(owner));
                prefix.filter(owned_by(owner)).lemma_push_map_commute(tag_of(), m);
            }
            if m.owner == owner {
                out.push(m.tag);
            }
            i += 1;
        }
        proof {
            self.rows@.lemma_take_len();
        }
        out
    }

    /// Deletes the rows of one owner.
    pub fn remove_owner(&mut self, owner: u128)
        ensures
            final(self)@ == old(self)@.filter(not_owned_by(owner)),
    {
        let mut kept: Vec<Marker> = Vec::new();
        let mut i: usize = 0;
        proof {
            assert(self.rows@.take(0) =~= Seq::<Marker>::empty());
            Seq::<Marker>::empty().lemma_all_neg_filter_empty(not_owned_by(owner));
        }
        while i < self.rows.len()
            invariant
                i <= self.rows@.len(),
                kept@ == self.rows@.take(i as int).filter(not_owned_by(owner)),
            decreases self.rows@.len() - i,
        {
            let m = self.rows[i];
            proof {
                self.rows@.lemma_take_succ_push(i as int);
                self.rows@.take(i as int).lemma_filter_push(m, not_owned_by(owner));
            }
            if m.owner != owner {
                kept.push(m);
            }
            i += 1;
        }
        proof {
            self.rows@.lemma_take_len();
        }
        self.rows = kept;
    }

    /// A copy of the table.
    pub fn duplicate(&self) -> (t: MarkerTable)
        ensures
            t@ == self@,
    {
        let mut rows: Vec<Marker> = Vec::new();
        let mut i: usize = 0;
        while i < self.rows.len()
            invariant
                i <= self.rows@.len(),
                rows@ == self.rows@.take(i as int),
            decreases self.rows@.len() - i,
        {
            rows.push(self.rows[i]);
            proof {
                self.rows@.lemma_take_succ_push(i as int);
            }
            i += 1;
        }
        proof {
            self.rows@.lemma_take_len();
        }
        MarkerTable { rows }
    }

    /// Whether some row has the tag.
    pub fn has_tag(&self, tag: i32) -> (b: bool)
        ensures
            b == exists|i: int| 0 <= i < self@.len() && (#[trigger] self@[i]).tag == tag,
    {
        let mut i: usize = 0;
        while i < self.rows.len()
            invariant
                i <= self.rows@.len(),
                forall|j: int| 0 <= j < i ==> (#[trigger] self.rows@[j]).tag != tag,
            decreases self.rows@.len() - i,
        {
            if self.rows[i].tag == tag {
                assert(self@[i as int].tag == tag);
                return true;
            }
            i += 1;
        }
        false
    }

    /// Gives an owner each of the tags that it does not have yet.
    pub fn add_tags(&mut self, owner: u128, tags: &Vec<i32>)
        ensures
            final(self)@ == with_markers(old(self)@, owner, tags@),
    {
        let ghost base = self@;
        let mut i: usize = 0;
        proof {
            assert(tags@.take(0) =~= Seq::<i32>::empty());
        }
        while i < tags.len()
            invariant
                i <= tags@.len(),
                self@ == with_markers(base, owner, tags@.take(i as int)),
            decreases tags@.len() - i,
        {
            let m = Marker { owner, tag: tags[i] };
            proof {
                tags@.lemma_take_succ_push(i as int);
                assert(tags@.take(i + 1).drop_last() =~= tags@.take(i as int));
                assert(tags@.take(i + 1).last() == tags@[i as int]);
            }
            if !self.contains(m) {
                self.push(m);
            }
            i += 1;
        }
        proof {
            tags@.lemma_take_len();
        }
    }

    /// Deletes the rows whose owner is not a key of `live`: what a cascading
    /// foreign key does after rows of the owners' table went.
    pub fn retain_owners<P>(&mut self, live: &Table<P>)
        requires
            live.wf(),
        ensures
            final(self)@ == old(self)@.filter(owned_in(live@.dom())),
    {
        let mut kept: Vec<Marker> = Vec::new();
        let mut i: usize = 0;
        let ghost pred = owned_in(live@.dom());
        proof {
            assert(self.rows@.take(0) =~= Seq::<Marker>::empty());
            Seq::<Marker>::empty().lemma_all_neg_filter_empty(pred);
        }
        while i < self.rows.len()
            invariant
                live.wf(),
                pred == owned_in(live@.dom()),
                i <= self.rows@.len(),
                kept@ == self.rows@.take(i as int).filter(pred),
            decreases self.rows@.len() - i,
        {
            let m = self.rows[i];
            proof {
                self.rows@.lemma_take_succ_push(i as int);
                self.rows@.take(i as int).lemma_filter_push(m, pred);
            }
            if live.contains_key(m.owner) {
                kept.push(m);
            }
            i += 1;
        }
        proof {
            self.rows@.lemma_take_len();
        }
        self.rows = kept;
    }

    /// Deletes every copy of one row; says whether there was one.
    pub fn remove_row(&mut self, row: Marker) -> (found: bool)
        ensures
            found == old(self)@.contains(row),
            final(self)@ == old(self)@.filter(other_than(row)),
    {
        let mut kept: Vec<Marker> = Vec::new();
        let mut found = false;
        let mut i: usize = 0;
        proof {
            assert(self.rows@.take(0) =~= Seq::<Marker>::empty());
            Seq::<Marker>::empty().lemma_all_neg_filter_empty(other_than(row));
        }
        while i < self.rows.len()
            invariant
                i <= self.rows@.len(),
                kept@ == self.rows@.take(i as int).filter(other_than(row)),
                found == self.rows@.take(i as int).contains(row),
            decreases self.rows@.len() - i,
        {
            let m = self.rows[i];
            proof {
                let prefix = self.rows@.take(i as int);
                self.rows@.lemma_take_succ_push(i as int);
                prefix.lemma_filter_push(m, other_than(row));
                if prefix.contains(row) {
                    let j = choose|j: int| 0 <= j < prefix.len() && prefix[j] == row;
                    assert(prefix.push(m)[j] == row);
                }
                if m == row {
                    assert(prefix.push(m)[prefix.len() as int] == row);
                }
            }
            if m.owner == row.owner && m.tag == row.tag {
                found = true;
            } else {
                kept.push(m);
            }
            i += 1;
        }
        proof {
            self.rows@.lemma_take_len();
        }
        self.rows = kept;
        found
    }
}

} // verus!
