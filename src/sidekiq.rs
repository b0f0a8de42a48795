use crate::scaler::SidekiqState;
use vstd::prelude::*;
use vstd::string::*;

verus! {

/// Key of the broker set that lists every known queue.
pub const QUEUES_KEY: &'static str = "sidekiq:queues";

/// Prefix of the broker key of each queue's job list.
pub const QUEUE_KEY_PREFIX: &'static str = "sidekiq:queue:";

/// Broker key of the job list of `queue`.
pub fn queue_key(queue: &str) -> (r: String)
    ensures
        r@ == QUEUE_KEY_PREFIX@ + queue@,
{
    let mut key = String::from_str(QUEUE_KEY_PREFIX);
    key.append(queue);
    key
}

/// Pairs each queue name with the length reported for it, in order; a name
/// or a length without a partner is dropped.
pub fn queue_state_from(queues: Vec<String>, lengths: Vec<usize>) -> (r: SidekiqState)
    ensures
        r.queue_lengths@.len() == if queues@.len() <= lengths@.len() {
            queues@.len()
        } else {
            lengths@.len()
        },
        forall|i: int|
            0 <= i < r.queue_lengths@.len() ==> #[trigger] r.queue_lengths@[i] == (
                queues@[i],
                lengths@[i],
            ),
{
    let mut queue_lengths: Vec<(String, usize)> = Vec::new();
    let mut i: usize = 0;
    while i < queues.len() && i < lengths.len()
        invariant
            i <= queues@.len(),
            i <= lengths@.len(),
            queue_lengths@.len() == i,
            forall|m: int| 0 <= m < i ==> #[trigger] queue_lengths@[m] == (queues@[m], lengths@[m]),
        decreases queues@.len() - i,
    {
        queue_lengths.push((queues[i].clone(), lengths[i]));
        i = i + 1;
    }
    SidekiqState { queue_lengths }
}

} // verus!
