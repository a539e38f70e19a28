//! Settings of the event stream producer, and the buffer in which a
//! batching producer gathers events before it sends them.

use vstd::prelude::*;

verus! {

/// Settings of the event stream producer.
#[derive(Debug)]
pub struct KafkaConfig {
    /// Broker addresses
    pub brokers: String,
    /// Topic events go to
    pub topic: String,
    /// Most events per batch before it is sent
    pub batch_size: usize,
    /// Longest wait before a batch is sent, in milliseconds
    pub batch_timeout_ms: u64,
    /// Message timeout in milliseconds
    pub message_timeout_ms: u64,
    /// Compression (none, gzip, snappy, lz4, zstd)
    pub compression_type: String,
    /// Whether the producer is idempotent
    pub enable_idempotence: bool,
    /// Most retries
    pub max_retries: usize,
    /// First retry delay in milliseconds
    pub retry_delay_ms: u64,
}

impl Default for KafkaConfig {
    /// The local broker, the graph's event topic, batches of 100 sent at
    /// least every second, snappy compression, idempotence, three retries
    /// 100 ms apart.
    fn default() -> (c: Self)
        ensures
            c.brokers@ == "localhost:9092"@,
            c.topic@ == "llm-memory-graph-events"@,
            c.batch_size == 100,
            c.batch_timeout_ms == 1000,
            c.message_timeout_ms == 5000,
            c.compression_type@ == "snappy"@,
            c.enable_idempotence,
            c.max_retries == 3,
            c.retry_delay_ms == 100,
    {
        KafkaConfig::new(String::from_str("localhost:9092"), String::from_str("llm-memory-graph-events"))
    }
}

impl KafkaConfig {
    /// Settings for a topic on some brokers, with the default batching,
    /// compression and retries.
    pub fn new(brokers: String, topic: String) -> (c: Self)
        ensures
            c.brokers == brokers,
            c.topic == topic,
            c.batch_size == 100,
            c.batch_timeout_ms == 1000,
            c.message_timeout_ms == 5000,
            c.compression_type@ == "snappy"@,
            c.enable_idempotence,
            c.max_retries == 3,
            c.retry_delay_ms == 100,
    {
        KafkaConfig {
            brokers,
            topic,
            batch_size: 100,
            batch_timeout_ms: 1000,
            message_timeout_ms: 5000,
            compression_type: String::from_str("snappy"),
            enable_idempotence: true,
            max_retries: 3,
            retry_delay_ms: 100,
        }
    }

    /// Set the batch size.
    pub fn with_batch_size(self, size: usize) -> (c: Self)
        ensures
            c == (KafkaConfig { batch_size: size, ..self }),
    {
        KafkaConfig { batch_size: size, ..self }
    }

    /// Set the batch timeout in milliseconds.
    pub fn with_batch_timeout_ms(self, timeout_ms: u64) -> (c: Self)
        ensures
            c == (KafkaConfig { batch_timeout_ms: timeout_ms, ..self }),
    {
        KafkaConfig { batch_timeout_ms: timeout_ms, ..self }
    }

    /// Set the compression.
    pub fn with_compression(self, compression: String) -> (c: Self)
        ensures
            c == (KafkaConfig { compression_type: compression, ..self }),
    {
        KafkaConfig { compression_type: compression, ..self }
    }

    /// Set the retries and their first delay.
    pub fn with_retry_config(self, max_retries: usize, delay_ms: u64) -> (c: Self)
        ensures
            c == (KafkaConfig { max_retries, retry_delay_ms: delay_ms, ..self }),
    {
        KafkaConfig { max_retries, retry_delay_ms: delay_ms, ..self }
    }
}

/// How many events a flush takes from a buffer of `len` events.
pub open spec fn batch_count(len: nat, batch_size: nat) -> nat {
    if len <= batch_size { len } else { batch_size }
}

/// The events a batching producer holds back until a batch is full or its
/// time is up, oldest first.
#[derive(Debug)]
pub struct BatchBuffer<T> {
    /// Events waiting to be sent, oldest first
    pub pending: Vec<T>,
    /// Most events sent at once
    pub batch_size: usize,
}

impl<T> BatchBuffer<T> {
    /// An empty buffer for batches of `batch_size` events.
    pub fn new(batch_size: usize) -> (b: Self)
        ensures
            b.pending@ == Seq::<T>::empty(),
            b.batch_size == batch_size,
    {
        BatchBuffer { pending: Vec::new(), batch_size }
    }

    /// Number of events waiting.
    pub fn buffer_size(&self) -> (n: usize)
        ensures
            n == self.pending@.len(),
    {
        self.pending.len()
    }

    /// Add an event behind the others; says whether a full batch now waits,
    /// so that the buffer is to be flushed.
    pub fn publish(&mut self, event: T) -> (flush_due: bool)
        ensures
            final(self).pending@ == old(self).pending@.push(event),
            final(self).batch_size == old(self).batch_size,
            flush_due == (final(self).pending@.len() >= final(self).batch_size),
    {
        self.pending.push(event);
        self.pending.len() >= self.batch_size
    }

    /// Take the oldest events, at most a batch of them, to send; the rest
    /// stay in order.
    pub fn flush_buffer(&mut self) -> (batch: Vec<T>)
        ensures
            batch@ == old(self).pending@.take(batch_count(old(self).pending@.len(), old(self).batch_size as nat) as int),
            final(self).pending@ == old(self).pending@.skip(batch_count(old(self).pending@.len(), old(self).batch_size as nat) as int),
            batch@ + final(self).pending@ == old(self).pending@,
            final(self).batch_size == old(self).batch_size,
    {
        let count = if self.pending.len() <= self.batch_size { self.pending.len() } else { self.batch_size };
        let mut rest = self.pending.split_off(count);
        std::mem::swap(&mut rest, &mut self.pending);
        assert(rest@ + self.pending@ =~= old(self).pending@);
        rest
    }

    /// The background flush: when `elapsed_ms` since the last flush has
    /// reached `timeout_ms`, take a batch as `flush_buffer` does; before
    /// that, take nothing.
    pub fn flush_on_timeout(&mut self, elapsed_ms: u64, timeout_ms: u64) -> (batch: Vec<T>)
        ensures
            elapsed_ms < timeout_ms ==> batch@ == Seq::<T>::empty() && final(self).pending@ == old(self).pending@,
            elapsed_ms >= timeout_ms ==> batch@ == old(self).pending@.take(
                batch_count(old(self).pending@.len(), old(self).batch_size as nat) as int),
            elapsed_ms >= timeout_ms ==> final(self).pending@ == old(self).pending@.skip(
                batch_count(old(self).pending@.len(), old(self).batch_size as nat) as int),
            final(self).batch_size == old(self).batch_size,
    {
        if elapsed_ms >= timeout_ms {
            self.flush_buffer()
        } else {
            Vec::new()
        }
    }
}

/// Events leave a batching buffer in the order they were published: what
/// a flush takes, followed by what stays, is the buffer as it was, and
/// an event published afterwards comes behind all of them.
pub proof fn lemma_batches_keep_order<T>(pending: Seq<T>, batch_size: nat, later: T)
    ensures
        pending.take(batch_count(pending.len(), batch_size) as int)
            + pending.skip(batch_count(pending.len(), batch_size) as int).push(later) == pending.push(later),
        batch_count(pending.len(), batch_size) <= batch_size,
        pending.len() > 0 && batch_size > 0 ==> batch_count(pending.len(), batch_size) > 0,
{
    let n = batch_count(pending.len(), batch_size) as int;
    assert(pending.take(n) + pending.skip(n).push(later) =~= pending.push(later));
}

} // verus!
