//! The replication log: the recorded outcome of each external call, by
//! index, as far as this node knows it.
use vstd::prelude::*;

use crate::msg::types::LogValue;

verus! {

/// Entries by index; an entry is `None` while its outcome is not known here.
#[derive(Debug)]
pub struct ReplicationLog {
    data: Vec<Option<LogValue>>,
}

impl View for ReplicationLog {
    type V = Seq<Option<LogValue>>;

    closed spec fn view(&self) -> Seq<Option<LogValue>> {
        self.data@
    }
}

/// The entry at index `i`: `None` past the end of the log.
pub open spec fn log_get(log: Seq<Option<LogValue>>, i: int) -> Option<LogValue> {
    if 0 <= i < log.len() {
        log[i]
    } else {
        None
    }
}

/// The log with `value` recorded at index `i`; a log too short for `i` is
/// first extended with unknown entries.
pub open spec fn log_set(log: Seq<Option<LogValue>>, i: nat, value: LogValue) -> Seq<Option<LogValue>> {
    if i < log.len() {
        log.update(i as int, Some(value))
    } else {
        log + Seq::new((i - log.len()) as nat, |_j: int| None::<LogValue>) + seq![Some(value)]
    }
}

/// Reading an index gives what the last write there wrote, and every other
/// index reads as before.
pub proof fn lemma_get_after_set(log: Seq<Option<LogValue>>, i: nat, value: LogValue, j: int)
    ensures
        log_get(log_set(log, i, value), j) == if j == i {
            Some(value)
        } else {
            log_get(log, j)
        },
{
}

/// After a write at `i` the log holds at least `i + 1` entries, and no
/// more than it needs.
pub proof fn lemma_set_len(log: Seq<Option<LogValue>>, i: nat, value: LogValue)
    ensures
        log_set(log, i, value).len() == if i < log.len() {
            log.len()
        } else {
            i + 1
        },
{
}

/// A write never shortens the log, and an entry that was known stays known.
pub proof fn lemma_set_keeps_known(log: Seq<Option<LogValue>>, i: nat, value: LogValue, j: int)
    ensures
        log_set(log, i, value).len() >= log.len(),
        log_get(log, j) is Some ==> log_get(log_set(log, i, value), j) is Some,
{
}

/// A second write at the same index replaces the first.
pub proof fn lemma_set_overwrites(log: Seq<Option<LogValue>>, i: nat, v: LogValue, w: LogValue)
    ensures
        log_set(log_set(log, i, v), i, w) == log_set(log, i, w),
{
    assert(log_set(log_set(log, i, v), i, w) =~= log_set(log, i, w));
}

impl ReplicationLog {
    pub fn new() -> (r: ReplicationLog)
        ensures
            r@ == Seq::<Option<LogValue>>::empty(),
    {
        ReplicationLog { data: Vec::new() }
    }

    /// A log of `count` entries, each known and empty.
    pub fn populated_with_empty(count: usize) -> (r: ReplicationLog)
        ensures
            r@.len() == count,
            forall|i: int| 0 <= i < count ==> (#[trigger] r@[i] matches Some(v) && v.spec_is_empty()),
    {
        let mut data: Vec<Option<LogValue>> = Vec::new();
        let mut i: usize = 0;
        while i < count
            invariant
                i <= count,
                data@.len() == i,
                forall|j: int| 0 <= j < i ==> (#[trigger] data@[j] matches Some(v) && v.spec_is_empty()),
            decreases count - i,
        {
            data.push(Some(LogValue::empty()));
            i = i + 1;
        }
        ReplicationLog { data }
    }

    /// The entry at `index`, when it is known.
    pub fn get(&self, index: usize) -> (r: Option<&LogValue>)
        ensures
            match log_get(self@, index as int) {
                Some(v) => r == Some(&v),
                None => r is None,
            },
    {
        if index < self.data.len() {
            self.data[index].as_ref()
        } else {
            None
        }
    }

    /// Records `value` at `index`, extending the log with unknown entries
    /// when it is too short.
    pub fn set(&mut self, index: usize, value: LogValue)
        requires
            index < usize::MAX,
        ensures
            final(self)@ == log_set(old(self)@, index as nat, value),
    {
        let current_len = self.data.len();
        if index >= current_len {
            let extend_by = index - current_len + 1;
            let mut k: usize = 0;
            while k < extend_by
                invariant
                    k <= extend_by,
                    extend_by == index - current_len + 1,
                    current_len == old(self)@.len(),
                    self@ == old(self)@ + Seq::new(k as nat, |_j: int| None::<LogValue>),
                decreases extend_by - k,
            {
                self.data.push(None);
                k = k + 1;
                assert(self@ =~= old(self)@ + Seq::new(k as nat, |_j: int| None::<LogValue>));
            }
        }
        self.data.set(index, Some(value));
        assert(self@ =~= log_set(old(self)@, index as nat, value));
    }

    pub fn len(&self) -> (r: usize)
        ensures
            r == self@.len(),
    {
        self.data.len()
    }
}

} // verus!
