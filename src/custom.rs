//! The custom sink: each record is handed over as it stands to a consumer
//! that the caller supplies, and no file is written.

use vstd::prelude::*;
use crate::storage::{copy_strings, StorageOptions};

verus! {

/// Hands out the records that a caller's consumer receives, one per call.
pub struct CustomDataGenerator {
    /// The records, in order.
    pub data: Vec<String>,
    /// The configuration of the run.
    pub options: StorageOptions,
    /// How many records have been handed out.
    pub index: usize,
}

impl CustomDataGenerator {
    /// A run over the records of `data`.
    pub fn new(data: &Vec<String>, options: &StorageOptions) -> (r: Self)
        ensures
            r.data@ == data@,
            r.options@ == options@,
            r.index == 0,
    {
        CustomDataGenerator { data: copy_strings(data), options: options.copied(), index: 0 }
    }

    /// The next record for the consumer, or `None` once all have been handed
    /// out.
    pub fn next(&mut self) -> (r: Option<String>)
        requires
            old(self).index <= old(self).data@.len(),
        ensures
            final(self).index <= final(self).data@.len(),
            final(self).data == old(self).data,
            old(self).index < old(self).data@.len() ==> r is Some && r->0 == old(self).data@[old(
                self,
            ).index as int] && final(self).index == old(self).index + 1,
            old(self).index >= old(self).data@.len() ==> r is None && final(self).index == old(
                self,
            ).index,
    {
        if self.index < self.data.len() {
            let record = self.data[self.index].clone();
            self.index = self.index + 1;
            return Some(record);
        }
        None
    }
}

} // verus!
