use vstd::prelude::*;

verus! {

/// The counters behind the progress bars that workers share: each bar has a capacity and
/// a completed count that never decreases and never exceeds the capacity. Drawing is
/// left to the caller, which holds this under the same lock as its drawing surface.
pub struct ProgressBars {
    capacities: Vec<usize>,
    completed: Vec<usize>,
}

impl ProgressBars {
    /// Each bar's capacity and completed count.
    pub closed spec fn bars(&self) -> Seq<(usize, usize)> {
        Seq::new(self.capacities@.len(), |i: int| (self.capacities@[i], self.completed@[i]))
    }

    /// One completed count per bar, none above its capacity.
    pub closed spec fn well_formed(&self) -> bool {
        &&& self.capacities@.len() == self.completed@.len()
        &&& forall|i: int| 0 <= i < self.completed@.len() ==> #[trigger] self.completed@[i] <= self.capacities@[i]
    }

    /// No bars yet.
    pub fn new() -> (r: Self)
        ensures
            r.well_formed(),
            r.bars().len() == 0,
    {
        ProgressBars { capacities: Vec::new(), completed: Vec::new() }
    }

    /// The number of bars.
    pub fn bar_count(&self) -> (r: usize)
        requires
            self.well_formed(),
        ensures
            r == self.bars().len(),
    {
        self.capacities.len()
    }

    /// Adds an empty bar of the given capacity; returns its handle.
    pub fn register_bar(&mut self, capacity: usize) -> (handle: usize)
        requires
            old(self).well_formed(),
        ensures
            final(self).well_formed(),
            handle == old(self).bars().len(),
            final(self).bars() == old(self).bars().push((capacity, 0usize)),
    {
        let handle = self.capacities.len();
        self.capacities.push(capacity);
        self.completed.push(0);
        assert(self.bars() =~= old(self).bars().push((capacity, 0usize)));
        handle
    }

    /// Moves a bar forward by `delta`, stopping at its capacity; returns the new count.
    pub fn advance(&mut self, handle: usize, delta: usize) -> (done: usize)
        requires
            old(self).well_formed(),
            handle < old(self).bars().len(),
        ensures
            final(self).well_formed(),
            done == if old(self).bars()[handle as int].1 + delta > old(self).bars()[handle as int].0 {
                old(self).bars()[handle as int].0
            } else {
                (old(self).bars()[handle as int].1 + delta) as usize
            },
            final(self).bars() == old(self).bars().update(
                handle as int,
                (old(self).bars()[handle as int].0, done),
            ),
    {
        let capacity = self.capacities[handle];
        let now = self.completed[handle];
        let done = if delta > capacity - now {
            capacity
        } else {
            now + delta
        };
        self.completed.set(handle, done);
        assert(self.bars() =~= old(self).bars().update(handle as int, (capacity, done)));
        done
    }

    /// Sets a bar to `value`, clamped to its capacity, unless it already stands further;
    /// returns the new count.
    pub fn set(&mut self, handle: usize, value: usize) -> (done: usize)
        requires
            old(self).well_formed(),
            handle < old(self).bars().len(),
        ensures
            final(self).well_formed(),
            done == {
                let (capacity, now) = old(self).bars()[handle as int];
                let clamped = if value > capacity {
                    capacity
                } else {
                    value
                };
                if clamped < now {
                    now
                } else {
                    clamped
                }
            },
            final(self).bars() == old(self).bars().update(
                handle as int,
                (old(self).bars()[handle as int].0, done),
            ),
    {
        let capacity = self.capacities[handle];
        let now = self.completed[handle];
        let clamped = if value > capacity {
            capacity
        } else {
            value
        };
        let done = if clamped < now {
            now
        } else {
            clamped
        };
        self.completed.set(handle, done);
        assert(self.bars() =~= old(self).bars().update(handle as int, (capacity, done)));
        done
    }
}

} // verus!
