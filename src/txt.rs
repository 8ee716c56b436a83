//! The plain emitter: the markup of each node, unchanged, one per chunk.

use vstd::prelude::*;
use crate::storage::{ScraperGenerator, StorageOptions};

verus! {

/// Emits the markup of each node as it stands in the source.
pub struct ScraperTxtGenerator(pub ScraperGenerator);

impl ScraperTxtGenerator {
    /// A run over the markup fragments of `data`.
    pub fn new(data: &Vec<String>, options: &StorageOptions) -> (r: Self)
        ensures
            r.0.data@ == data@,
            r.0.options@ == options@,
            r.0.index == 0,
    {
        ScraperTxtGenerator(ScraperGenerator::new(data, options))
    }

    /// The next fragment, or `None` once all have been emitted.
    pub fn next(&mut self) -> (r: Option<String>)
        requires
            old(self).0.index <= old(self).0.data@.len(),
        ensures
            final(self).0.index <= final(self).0.data@.len(),
            final(self).0.data == old(self).0.data,
            old(self).0.index < old(self).0.data@.len() ==> r is Some && r->0
                == old(self).0.data@[old(self).0.index as int] && final(self).0.index == old(
                self,
            ).0.index + 1,
            old(self).0.index >= old(self).0.data@.len() ==> r is None && final(self).0.index
                == old(self).0.index,
    {
        self.0.next()
    }
}

} // verus!
