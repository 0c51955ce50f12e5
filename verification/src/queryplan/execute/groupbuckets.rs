//! The groups of a grouping while its rows come in.

use vstd::prelude::*;
use crate::databasestorage::Group;
use crate::queryplan::execute::semantics::{buckets_of, find_key, groups_insert, GroupView};
use crate::tempdb::table::rows_view;
use crate::types::variant::{row_view, Value, Variant};

verus! {

/// Whether two rows hold the same values. NULL is the same as NULL, and a
/// double is the same as a double with the same bits.
pub fn rows_equal(a: &Vec<Variant>, b: &Vec<Variant>) -> (r: bool)
    ensures
        r == (row_view(a@) == row_view(b@)),
{
    if a.len() != b.len() {
        proof {
            assert(row_view(a@).len() != row_view(b@).len());
        }
        return false;
    }
    let mut i: usize = 0;
    while i < a.len()
        invariant
            a@.len() == b@.len(),
            i <= a@.len(),
            forall|j: int| 0 <= j < i ==> a@[j]@ == b@[j]@,
        decreases a@.len() - i,
    {
        if !(a[i] == b[i]) {
            proof {
                assert(row_view(a@)[i as int] == a@[i as int]@);
                assert(row_view(b@)[i as int] == b@[i as int]@);
            }
            return false;
        }
        i = i + 1;
    }
    proof {
        assert(row_view(a@) =~= row_view(b@));
    }
    true
}

/// The rows of one group, in the order in which they came.
pub struct GroupBucket {
    pub rows: Vec<Vec<Variant>>,
}

impl View for GroupBucket {
    type V = Seq<Seq<Value>>;

    open spec fn view(&self) -> Seq<Seq<Value>> {
        rows_view(self.rows@)
    }
}

impl Group for GroupBucket {
    fn get_any_row(&self) -> (r: Option<&Vec<Variant>>)
        ensures
            match r {
                Some(row) => self.rows@.len() > 0 && *row == self.rows@[0],
                None => self.rows@.len() == 0,
            },
    {
        if self.rows.len() > 0 {
            Some(&self.rows[0])
        } else {
            None
        }
    }

    fn count(&self) -> (r: u64)
        ensures
            r == self.rows@.len(),
    {
        self.rows.len() as u64
    }

    fn iter(&self) -> (r: &Vec<Vec<Variant>>)
        ensures
            *r == self.rows,
    {
        &self.rows
    }
}

/// One group while it is collected: the values that its rows share, and
/// its rows.
pub struct GroupEntry {
    pub key: Vec<Variant>,
    pub bucket: GroupBucket,
}

/// The groups collected so far, each under the values that its rows share,
/// in the order in which their first rows came.
pub struct GroupBuckets {
    entries: Vec<GroupEntry>,
}

impl View for GroupBuckets {
    type V = Seq<GroupView>;

    closed spec fn view(&self) -> Seq<GroupView> {
        Seq::new(
            self.entries@.len(),
            |i: int| GroupView { key: row_view(self.entries@[i].key@), rows: self.entries@[i].bucket@ },
        )
    }
}

/// What is handed out of the groups: the buckets in order.
pub struct IntoIter {
    buckets: Vec<GroupBucket>,
    at: usize,
}

impl IntoIter {
    /// The buckets that are still to come.
    pub closed spec fn remaining(&self) -> Seq<Seq<Seq<Value>>> {
        Seq::new(
            (self.buckets@.len() - self.at) as nat,
            |i: int| self.buckets@[self.at + i]@,
        )
    }

    #[verifier::type_invariant]
    spec fn in_range(&self) -> bool {
        self.at <= self.buckets@.len()
    }

    /// The next bucket, or `None` behind the last.
    pub fn next(&mut self) -> (r: Option<GroupBucket>)
        ensures
            match r {
                Some(bucket) => old(self).remaining().len() > 0 && bucket@
                    == old(self).remaining()[0] && final(self).remaining()
                        == old(self).remaining().drop_first(),
                None => old(self).remaining().len() == 0 && final(self).remaining().len() == 0,
            },
    {
        proof {
            use_type_invariant(&*self);
        }
        if self.at < self.buckets.len() {
            let rows = clone_rows(&self.buckets[self.at].rows);
            self.at = self.at + 1;
            proof {
                assert(self.remaining() =~= old(self).remaining().drop_first());
            }
            Some(GroupBucket { rows })
        } else {
            None
        }
    }
}

/// A copy of a row.
pub fn clone_row(row: &[Variant]) -> (r: Vec<Variant>)
    ensures
        row_view(r@) == row_view(row@),
{
    let mut out: Vec<Variant> = Vec::new();
    let mut i: usize = 0;
    while i < row.len()
        invariant
            i <= row@.len(),
            out@.len() == i,
            forall|j: int| 0 <= j < i ==> out@[j]@ == row@[j]@,
        decreases row@.len() - i,
    {
        out.push(row[i].clone());
        i = i + 1;
    }
    proof {
        assert(row_view(out@) =~= row_view(row@));
    }
    out
}

/// A copy of rows.
pub fn clone_rows(rows: &Vec<Vec<Variant>>) -> (r: Vec<Vec<Variant>>)
    ensures
        rows_view(r@) == rows_view(rows@),
{
    let mut out: Vec<Vec<Variant>> = Vec::new();
    let mut i: usize = 0;
    while i < rows.len()
        invariant
            i <= rows@.len(),
            out@.len() == i,
            forall|j: int| 0 <= j < i ==> row_view(out@[j]@) == row_view(rows@[j]@),
        decreases rows@.len() - i,
    {
        out.push(clone_row(rows[i].as_slice()));
        i = i + 1;
    }
    proof {
        assert(rows_view(out@) =~= rows_view(rows@));
    }
    out
}

impl GroupBuckets {
    /// No groups.
    pub fn new() -> (r: GroupBuckets)
        ensures
            r@ == Seq::<GroupView>::empty(),
    {
        let r = GroupBuckets { entries: Vec::new() };
        proof {
            assert(r@ =~= Seq::<GroupView>::empty());
        }
        r
    }

    /// Puts a row into the group of its key; a key that is new starts a
    /// group behind the others.
    pub fn insert(&mut self, key: Vec<Variant>, row: Vec<Variant>)
        ensures
            final(self)@ == groups_insert(old(self)@, row_view(key@), row_view(row@)),
    {
        let ghost before = self@;
        let ghost wanted = row_view(key@);
        let ghost shown = row_view(row@);
        let n: usize = self.entries.len();
        let mut i: usize = 0;
        while i < n
            invariant
                n == self.entries@.len(),
                i <= n,
                *self == *old(self),
                before == self@,
                wanted == row_view(key@),
                shown == row_view(row@),
                find_key(before, wanted, 0) == find_key(before, wanted, i as int),
            decreases n - i,
        {
            if rows_equal(&self.entries[i].key, &key) {
                let ghost old_entries = self.entries@;
                let ghost old_rows = self.entries@[i as int].bucket.rows@;
                self.entries[i].bucket.rows.push(row);
                proof {
                    assert(self.entries@.len() == n);
                    assert(self.entries@[i as int].bucket.rows@ == old_rows.push(row));
                    assert(self.entries@[i as int].key == old_entries[i as int].key);
                    assert(forall|j: int|
                        0 <= j < n && j != i ==> self.entries@[j] == old_entries[j]);
                    assert(rows_view(old_rows.push(row)) =~= rows_view(old_rows).push(shown));
                    assert(self@ =~= groups_insert(before, wanted, shown));
                }
                return ;
            }
            i = i + 1;
        }
        let mut rows: Vec<Vec<Variant>> = Vec::new();
        rows.push(row);
        proof {
            assert(rows_view(rows@) =~= seq![shown]);
        }
        self.entries.push(GroupEntry { key, bucket: GroupBucket { rows } });
        proof {
            assert(self@ =~= groups_insert(before, wanted, shown));
        }
    }

    /// The buckets of the groups, in order.
    pub fn into_buckets(self) -> (r: Vec<GroupBucket>)
        ensures
            r@.len() == self@.len(),
            forall|i: int| 0 <= i < r@.len() ==> (#[trigger] r@[i])@ == self@[i].rows,
    {
        let ghost shown = self@;
        let mut entries = self.entries;
        let mut out: Vec<GroupBucket> = Vec::new();
        let n: usize = entries.len();
        let mut i: usize = 0;
        while i < n
            invariant
                n == entries@.len(),
                n == shown.len(),
                i <= n,
                out@.len() == i,
                forall|j: int| 0 <= j < i ==> (#[trigger] out@[j])@ == shown[j].rows,
                forall|j: int| i <= j < n ==> (#[trigger] entries@[j]).bucket@ == shown[j].rows,
            decreases n - i,
        {
            let mut rows: Vec<Vec<Variant>> = Vec::new();
            let ghost held = entries@[i as int].bucket@;
            core::mem::swap(&mut rows, &mut entries[i].bucket.rows);
            out.push(GroupBucket { rows });
            i = i + 1;
        }
        out
    }

    /// Hands out the buckets of the groups one by one, in order.
    pub fn into_iter(self) -> (r: IntoIter)
        ensures
            r.remaining() == buckets_of(self@),
    {
        let ghost shown = self@;
        let buckets = self.into_buckets();
        let r = IntoIter { buckets, at: 0 };
        proof {
            assert(r.remaining() =~= buckets_of(shown));
        }
        r
    }
}

} // verus!
