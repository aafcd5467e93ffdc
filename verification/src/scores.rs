//! The records a refresh fetches, and the mapping a batch of them denotes.

use vstd::prelude::*;

verus! {

/// One fetched record: an external entity's current score (`xp`), keyed by
/// its identifier (`id`). Identifiers are normally unique within a batch,
/// but the upstream format does not guarantee it.
#[derive(Clone, Copy, Debug, PartialEq, Eq, Structural)]
pub struct IncomingUser {
    pub xp: u64,
    pub id: u64,
}

/// The mapping with no entries at all: what an empty batch denotes.
pub open spec fn empty_scores() -> Map<u64, u64> {
    Map::empty()
}

/// The mapping a batch of records denotes: each id maps to the score of the
/// last record in the batch that carries that id (last-write-wins).
pub open spec fn scores_of(records: Seq<IncomingUser>) -> Map<u64, u64>
    decreases records.len(),
{
    if records.len() == 0 {
        Map::empty()
    } else {
        scores_of(records.drop_last()).insert(records.last().id, records.last().xp)
    }
}

/// Law: the mapping a batch denotes has an entry for an id exactly when
/// some record of the batch carries that id, and the entry's score is the
/// score of the last such record — duplicate ids resolve last-write-wins.
pub proof fn lemma_scores_of_last_write_wins(records: Seq<IncomingUser>, id: u64)
    ensures
        scores_of(records).contains_key(id) <==> (exists|i: int|
            0 <= i < records.len() && records[i].id == id),
        scores_of(records).contains_key(id) ==> (exists|i: int|
            0 <= i < records.len() && records[i].id == id && scores_of(records)[id]
                == records[i].xp && (forall|j: int| i < j < records.len() ==> records[j].id != id)),
    decreases records.len(),
{
    if records.len() > 0 {
        let prefix = records.drop_last();
        let last = records.last();
        lemma_scores_of_last_write_wins(prefix, id);
        if last.id == id {
            let w = records.len() - 1;
            assert(records[w].id == id && scores_of(records)[id] == records[w].xp);
            assert(forall|j: int| w < j < records.len() ==> records[j].id != id);
        } else {
            if scores_of(records).contains_key(id) {
                let i = choose|i: int|
                    0 <= i < prefix.len() && prefix[i].id == id && scores_of(prefix)[id]
                        == prefix[i].xp && (forall|j: int|
                        i < j < prefix.len() ==> prefix[j].id != id);
                assert(records[i] == prefix[i]);
                assert(scores_of(records)[id] == scores_of(prefix)[id]);
                assert forall|j: int| i < j < records.len() implies records[j].id != id by {
                    if j < records.len() - 1 {
                        assert(records[j] == prefix[j]);
                    }
                }
                assert(records[i].id == id && scores_of(records)[id] == records[i].xp);
            }
            if exists|i: int| 0 <= i < records.len() && records[i].id == id {
                let i = choose|i: int| 0 <= i < records.len() && records[i].id == id;
                assert(prefix[i].id == id);
            }
        }
    }
}

/// Extending a batch by one record inserts that record's entry into the
/// mapping of the shorter batch.
pub proof fn lemma_scores_of_take_step(records: Seq<IncomingUser>, i: int)
    requires
        0 <= i < records.len(),
    ensures
        scores_of(records.take(i + 1)) == scores_of(records.take(i)).insert(
            records[i].id,
            records[i].xp,
        ),
{
    assert(records.take(i + 1).drop_last() =~= records.take(i));
    assert(records.take(i + 1).last() == records[i]);
}

} // verus!
