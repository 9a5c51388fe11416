//! Admitting an Observation: the payload bound, idempotent replay of a
//! repeated key, and the Investigation status the ingestion leads to.

use vstd::prelude::*;
use crate::error::RivoraError;
use crate::lifecycle::status_for_observation;
use crate::model::{MemoryRecord, Observation};
use crate::ids::ObjectId;
use crate::text::{chars_of, decimal, push_decimal, push_str, text_eq, to_string};
use crate::vocab::InvestigationStatus;

verus! {

/// The largest accepted Observation payload, in bytes of its JSON text.
pub const MAX_PAYLOAD_BYTES: usize = 1048576;

/// What to do with an Observation.
pub enum IngestDecision {
    /// The key was seen: answer with the stored Observation and Memory
    /// record at these positions, storing nothing.
    Replay { observation: usize, memory: usize },
    /// Store the Observation and its Memory record; the Investigation moves
    /// to `status`.
    Append { status: InvestigationStatus },
}

/// The Observation carries this idempotency key.
pub open spec fn has_key(o: Observation, key: Seq<char>) -> bool {
    o.idempotency_key matches Some(k) && k@ == key
}

/// Position of the first Observation with this key, or -1.
pub open spec fn keyed_at(obs: Seq<Observation>, key: Seq<char>) -> int
    decreases obs.len(),
{
    if obs.len() == 0 {
        -1
    } else {
        let k = keyed_at(obs.drop_last(), key);
        if k >= 0 { k } else if has_key(obs.last(), key) { obs.len() - 1 } else { -1 }
    }
}

/// Position of the first Memory record of this Observation, or -1.
pub open spec fn memory_at(ms: Seq<MemoryRecord>, id: ObjectId) -> int
    decreases ms.len(),
{
    if ms.len() == 0 {
        -1
    } else {
        let k = memory_at(ms.drop_last(), id);
        if k >= 0 { k } else if ms.last().observation_id == id { ms.len() - 1 } else { -1 }
    }
}

proof fn lemma_keyed_at(obs: Seq<Observation>, key: Seq<char>)
    ensures
        -1 <= keyed_at(obs, key) < obs.len(),
        keyed_at(obs, key) >= 0 ==> has_key(obs[keyed_at(obs, key)], key),
        forall|q: int| 0 <= q < obs.len() && (keyed_at(obs, key) < 0 || q < keyed_at(obs, key)) ==> !has_key(#[trigger] obs[q], key),
    decreases obs.len(),
{
    if obs.len() > 0 {
        let init = obs.drop_last();
        lemma_keyed_at(init, key);
        let k = keyed_at(obs, key);
        assert forall|q: int| 0 <= q < obs.len() && (k < 0 || q < k) implies !has_key(#[trigger] obs[q], key) by {
            if q < obs.len() - 1 {
                assert(obs[q] == init[q]);
            }
        }
    }
}

proof fn lemma_memory_at(ms: Seq<MemoryRecord>, id: ObjectId)
    ensures
        -1 <= memory_at(ms, id) < ms.len(),
        memory_at(ms, id) >= 0 ==> ms[memory_at(ms, id)].observation_id == id,
        forall|q: int| 0 <= q < ms.len() && (memory_at(ms, id) < 0 || q < memory_at(ms, id)) ==> (#[trigger] ms[q]).observation_id != id,
    decreases ms.len(),
{
    if ms.len() > 0 {
        let init = ms.drop_last();
        lemma_memory_at(init, id);
        let k = memory_at(ms, id);
        assert forall|q: int| 0 <= q < ms.len() && (k < 0 || q < k) implies (#[trigger] ms[q]).observation_id != id by {
            if q < ms.len() - 1 {
                assert(ms[q] == init[q]);
            }
        }
    }
}

fn find_keyed(obs: &Vec<Observation>, key: &Vec<char>) -> (k: usize)
    ensures
        keyed_at(obs@, key@) < 0 ==> k == obs@.len(),
        keyed_at(obs@, key@) >= 0 ==> k == keyed_at(obs@, key@),
        -1 <= keyed_at(obs@, key@) < obs@.len(),
{
    proof {
        lemma_keyed_at(obs@, key@);
    }
    let mut i: usize = 0;
    while i < obs.len()
        invariant
            i <= obs@.len(),
            forall|q: int| 0 <= q < i ==> !has_key(#[trigger] obs@[q], key@),
        decreases obs.len() - i,
    {
        let hit = match &obs[i].idempotency_key {
            Some(k) => text_eq(&chars_of(k.as_str()), key),
            None => false,
        };
        if hit {
            proof {
                lemma_keyed_at(obs@, key@);
            }
            return i;
        }
        i = i + 1;
    }
    proof {
        lemma_keyed_at(obs@, key@);
    }
    i
}

fn find_memory(ms: &Vec<MemoryRecord>, id: ObjectId) -> (k: usize)
    ensures
        memory_at(ms@, id) < 0 ==> k == ms@.len(),
        memory_at(ms@, id) >= 0 ==> k == memory_at(ms@, id),
        -1 <= memory_at(ms@, id) < ms@.len(),
{
    let mut i: usize = 0;
    while i < ms.len()
        invariant
            i <= ms@.len(),
            forall|q: int| 0 <= q < i ==> (#[trigger] ms@[q]).observation_id != id,
        decreases ms.len() - i,
    {
        if ms[i].observation_id == id {
            proof {
                lemma_memory_at(ms@, id);
            }
            return i;
        }
        i = i + 1;
    }
    proof {
        lemma_memory_at(ms@, id);
    }
    i
}

/// The message of an oversized payload.
pub open spec fn too_large_message(n: nat) -> Seq<char> {
    "observation payload is "@ + decimal(n) + " bytes; max is 1048576"@
}

/// Decides an Observation of `payload_bytes` bytes with optional
/// idempotency `key`, for an Investigation in `status` holding
/// `observations` and `memory`. An oversized payload is refused first; a
/// key already carried by a stored Observation replays it with its Memory
/// record (a missing record is a precondition error); otherwise the
/// Observation is appended, which a Completed Investigation refuses and
/// which moves a Created one to Collecting.
pub fn decide_ingest(
    status: InvestigationStatus,
    payload_bytes: usize,
    key: &Option<String>,
    observations: &Vec<Observation>,
    memory: &Vec<MemoryRecord>,
) -> (r: Result<IngestDecision, RivoraError>)
    ensures
        payload_bytes > MAX_PAYLOAD_BYTES ==> (r matches Err(e) && e matches RivoraError::PayloadTooLarge { message: m }
            && m@ == too_large_message(payload_bytes as nat)),
        key is Some && payload_bytes <= MAX_PAYLOAD_BYTES && keyed_at(observations@, key->0@) >= 0 ==> if memory_at(
            memory@,
            observations@[keyed_at(observations@, key->0@)].id,
        ) >= 0 {
            r matches Ok(IngestDecision::Replay { observation, memory: mi }) && observation == keyed_at(observations@, key->0@)
                && mi == memory_at(memory@, observations@[keyed_at(observations@, key->0@)].id)
        } else {
            r matches Err(e) && e matches RivoraError::Precondition { message: m } && m@ == "idempotent observation missing memory record"@
        },
        payload_bytes <= MAX_PAYLOAD_BYTES && (key is Some ==> keyed_at(observations@, key->0@) < 0) ==> if status
            == InvestigationStatus::Completed {
            r matches Err(e) && e matches RivoraError::OperationNotAllowed { message: m }
                && m@ == "cannot ingest into completed investigation; reopen first"@
        } else {
            r matches Ok(IngestDecision::Append { status: s }) && s == if status == InvestigationStatus::Created {
                InvestigationStatus::Collecting
            } else {
                status
            }
        },
{
    if payload_bytes > MAX_PAYLOAD_BYTES {
        let mut out: Vec<char> = Vec::new();
        push_str(&mut out, "observation payload is ");
        push_decimal(&mut out, payload_bytes as u128);
        push_str(&mut out, " bytes; max is 1048576");
        return Err(RivoraError::PayloadTooLarge { message: to_string(&out) });
    }
    match key {
        Some(k) => {
            let kc = chars_of(k.as_str());
            let at = find_keyed(observations, &kc);
            if at < observations.len() {
                let mi = find_memory(memory, observations[at].id);
                if mi < memory.len() {
                    return Ok(IngestDecision::Replay { observation: at, memory: mi });
                }
                return Err(RivoraError::precondition("idempotent observation missing memory record"));
            }
        },
        None => {},
    }
    match status_for_observation(status) {
        Ok(s) => Ok(IngestDecision::Append { status: s }),
        Err(e) => Err(e),
    }
}

} // verus!
