//! Checkpoint records: one cursor per partition, kept as decimal text.
use crate::bignum::{
    decimal_of, decimal_val, key_decimal_chars, key_le, key_parse_decimal, lemma_decimal_round_trip,
    parses_decimal, string_of_chars, unsigned_body, Key,
};
use crate::partition::Partition;
use std::collections::HashMap;
use vstd::prelude::*;

verus! {

/// The cursor that a record restores for a partition `[start, stop)`: the
/// number in the record when it reads as one and lies in the partition,
/// the partition's start otherwise.
pub open spec fn restored_cursor(record: Option<Seq<char>>, start: nat, stop: nat) -> nat {
    match record {
        Some(t) => if parses_decimal(t) && start <= decimal_val(unsigned_body(t)) < stop {
            decimal_val(unsigned_body(t))
        } else {
            start
        },
        None => start,
    }
}

/// The text of the record for a cursor: its canonical decimal digits.
pub fn checkpoint_text(cursor: &Key) -> (r: String)
    ensures
        r@ == decimal_of(cursor@),
{
    let digits = key_decimal_chars(cursor);
    string_of_chars(&digits)
}

/// The cursor to resume a partition from, given the record saved for it, if any.
pub fn restore_cursor(record: Option<&str>, part: &Partition) -> (r: Key)
    ensures
        r@ == restored_cursor(
            match record {
                Some(t) => Some(t@),
                None => None,
            },
            part.start@,
            part.stop@,
        ),
{
    match record {
        Some(text) => match key_parse_decimal(text) {
            Some(k) => {
                if key_le(&part.start, &k) && !key_le(&part.stop, &k) {
                    k
                } else {
                    part.start.clone()
                }
            },
            None => part.start.clone(),
        },
        None => part.start.clone(),
    }
}

/// Checkpoint records keyed by partition id; the last save wins.
pub struct CheckpointStore {
    pub records: HashMap<usize, String>,
}

impl CheckpointStore {
    /// The text saved for each partition id.
    pub open spec fn saved(&self) -> Map<usize, Seq<char>> {
        Map::new(|id: usize| self.records@.contains_key(id), |id: usize| self.records@[id]@)
    }

    pub fn new() -> (r: Self)
        ensures
            r.saved() == Map::<usize, Seq<char>>::empty(),
    {
        let r = CheckpointStore { records: HashMap::new() };
        assert(r.saved() =~= Map::<usize, Seq<char>>::empty());
        r
    }

    /// Overwrites the record of a partition with the cursor's decimal text.
    pub fn save(&mut self, partition_id: usize, cursor: &Key)
        ensures
            final(self).saved() == old(self).saved().insert(partition_id, decimal_of(cursor@)),
    {
        let text = checkpoint_text(cursor);
        self.records.insert(partition_id, text);
        assert(self.saved() =~= old(self).saved().insert(partition_id, decimal_of(cursor@)));
    }

    /// The cursor to resume a partition from: its saved cursor when that reads
    /// as a number inside the partition, the partition's start otherwise.
    pub fn load(&self, part: &Partition) -> (r: Key)
        ensures
            r@ == restored_cursor(
                if self.saved().contains_key(part.id) {
                    Some(self.saved()[part.id])
                } else {
                    None
                },
                part.start@,
                part.stop@,
            ),
    {
        broadcast use vstd::std_specs::hash::group_hash_axioms;

        match self.records.get(&part.id) {
            Some(text) => restore_cursor(Some(text.as_str()), part),
            None => restore_cursor(None, part),
        }
    }
}

/// Saving a cursor that lies in a partition and loading that partition back
/// gives the cursor, whatever else the store held.
pub proof fn lemma_checkpoint_round_trip(
    saved: Map<usize, Seq<char>>,
    id: usize,
    cursor: nat,
    start: nat,
    stop: nat,
)
    requires
        start <= cursor < stop,
    ensures
        ({
            let after = saved.insert(id, decimal_of(cursor));
            &&& after.contains_key(id)
            &&& restored_cursor(Some(after[id]), start, stop) == cursor
        }),
{
    lemma_decimal_round_trip(cursor);
}

/// Loading a partition whose id was never saved gives the partition's start.
pub proof fn lemma_checkpoint_fallback(saved: Map<usize, Seq<char>>, id: usize, start: nat, stop: nat)
    requires
        !saved.contains_key(id),
    ensures
        restored_cursor(
            if saved.contains_key(id) {
                Some(saved[id])
            } else {
                None
            },
            start,
            stop,
        ) == start,
{
}

} // verus!
